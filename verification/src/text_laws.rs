//! What texts hold: what was cut, compared, written and read back.

use vstd::arithmetic::div_mod::lemma_mod_breakdown;
use vstd::arithmetic::power::{lemma_pow_positive, pow};
use vstd::prelude::*;
use vstd::string::*;
use vstd::utf8::encode_utf8;

use crate::pages::home::{
    cookie_field, cookie_in, cookie_line, lowercase, room_path, set_cookie, submit,
};
use crate::scan::{
    after_prefix, digits_value, find_in, is_digit, is_space, port_number, trim_end, trim_start,
    trimmed_text,
};
use crate::text::{
    bytes_before, decimal_text, digit_char, first_chars, hex_bytes, hex_text, lemma_decimal_digits,
    lemma_hex_width, sorts_before,
};

verus! {

/// A text that is cut short is the start of the whole, and is cut no shorter than asked.
pub proof fn law_cutting_short_keeps_the_start(s: Seq<char>, n: nat)
    ensures
        first_chars(s, n).is_prefix_of(s),
        first_chars(s, n).len() == if s.len() <= n {
            s.len()
        } else {
            n
        },
        s.len() <= n ==> first_chars(s, n) == s,
{
}

/// The first difference decides how byte strings sort: what they share does not count,
/// the smaller byte comes first, and what ends comes before what goes on.
pub proof fn law_the_first_difference_decides(
    shared: Seq<u8>,
    x: u8,
    a: Seq<u8>,
    y: u8,
    b: Seq<u8>,
)
    requires
        x < y,
    ensures
        bytes_before(shared.push(x) + a, shared.push(y) + b),
        !bytes_before(shared.push(y) + b, shared.push(x) + a),
        bytes_before(shared, shared.push(x) + a),
        !bytes_before(shared.push(x) + a, shared),
        !bytes_before(shared, shared),
    decreases shared.len(),
{
    let p = shared.push(x) + a;
    let q = shared.push(y) + b;
    if shared.len() > 0 {
        let rest = shared.drop_first();
        assert(p.drop_first() =~= rest.push(x) + a);
        assert(q.drop_first() =~= rest.push(y) + b);
        assert(p[0] == shared[0] && q[0] == shared[0]);
        law_the_first_difference_decides(rest, x, a, y, b);
    } else {
        assert(p[0] == x && q[0] == y);
    }
}

/// Texts sort by the bytes of their encodings.
pub proof fn law_texts_sort_by_their_bytes(a: Seq<char>, b: Seq<char>)
    ensures
        sorts_before(a, b) == bytes_before(encode_utf8(a), encode_utf8(b)),
{
}

/// The decimal digits follow `0` in the order of their values, and the others follow `a`.
pub proof fn law_digits_stand_in_order(d: nat)
    requires
        d < 16,
    ensures
        d < 10 ==> digit_char(d) as u32 == '0' as u32 + d,
        d >= 10 ==> digit_char(d) as u32 == 'a' as u32 + d - 10,
{
}

/// A number that is written in decimal reads back as itself, and has no zero in front
/// unless it is zero.
pub proof fn law_decimal_numbers_read_back(n: nat)
    ensures
        digits_value(decimal_text(n)) == Some(n),
        decimal_text(n).len() > 0,
        decimal_text(n)[0] == '0' <==> n == 0,
        n == 0 ==> decimal_text(n).len() == 1,
    decreases n,
{
    reveal_with_fuel(digits_value, 2);
    let text = decimal_text(n);
    lemma_decimal_digits(n);
    if n >= 10 {
        law_decimal_numbers_read_back(n / 10);
        assert(text.drop_last() =~= decimal_text(n / 10));
        assert(text[0] == decimal_text(n / 10)[0]);
        law_digits_stand_in_order(n % 10);
    } else {
        assert(text.drop_last() =~= Seq::empty());
        law_digits_stand_in_order(n);
    }
}

/// The number that hexadecimal digits stand for.
pub open spec fn hex_value(s: Seq<char>) -> nat
    decreases s.len(),
{
    if s.len() == 0 {
        0
    } else {
        16 * hex_value(s.drop_last()) + if is_digit(s.last()) {
            (s.last() as u32 - '0' as u32) as nat
        } else {
            (10 + s.last() as u32 - 'a' as u32) as nat
        }
    }
}

/// A number that is written in hexadecimal reads back as itself, as far as the width
/// goes.
pub proof fn law_hexadecimal_numbers_read_back(n: nat, width: nat)
    ensures
        hex_text(n, width).len() == width,
        hex_value(hex_text(n, width)) == n % (pow(16, width) as nat),
        n < pow(16, width) ==> hex_value(hex_text(n, width)) == n,
    decreases width,
{
    reveal(pow);
    lemma_hex_width(n, width);
    lemma_pow_positive(16, width);
    if width > 0 {
        let rest = (width - 1) as nat;
        law_hexadecimal_numbers_read_back(n / 16, rest);
        assert(hex_text(n, width).drop_last() =~= hex_text(n / 16, rest));
        law_digits_stand_in_order(n % 16);
        lemma_pow_positive(16, rest);
        lemma_mod_breakdown(n as int, 16, pow(16, rest));
        assert(pow(16, width) == 16 * pow(16, rest));
    }
    if n < pow(16, width) {
        vstd::arithmetic::div_mod::lemma_small_mod(n, pow(16, width) as nat);
    }
}

/// Bytes are written in hexadecimal one after the other, two digits each, the greater
/// digit first.
pub proof fn law_bytes_are_written_one_after_the_other(a: Seq<u8>, b: Seq<u8>, x: u8)
    ensures
        hex_bytes(a + b) == hex_bytes(a) + hex_bytes(b),
        hex_bytes(seq![x]) == seq![digit_char((x / 16) as nat), digit_char((x % 16) as nat)],
        hex_bytes(a).len() == 2 * a.len(),
    decreases b.len(),
{
    reveal_with_fuel(hex_bytes, 2);
    reveal_with_fuel(hex_text, 3);
    crate::text::lemma_hex_bytes_len(a);
    assert(seq![x].drop_last() =~= Seq::empty());
    assert(hex_bytes(seq![x]) =~= seq![
        digit_char((x / 16) as nat),
        digit_char((x % 16) as nat),
    ]);
    if b.len() == 0 {
        assert(a + b =~= a);
        assert(hex_bytes(a) + hex_bytes(b) =~= hex_bytes(a));
    } else {
        assert((a + b).drop_last() =~= a + b.drop_last());
        assert((a + b).last() == b.last());
        law_bytes_are_written_one_after_the_other(a, b.drop_last(), x);
        assert(hex_bytes(a + b) =~= hex_bytes(a) + hex_bytes(b));
    }
}

/// Of the ASCII characters, white space is the blank and what lies between the tab and
/// the carriage return; nothing that is printed is.
pub proof fn law_what_is_printed_is_not_space(c: char)
    ensures
        is_space(' '),
        is_space('\t') && is_space('\n') && is_space('\r'),
        '!' <= c <= '~' ==> !is_space(c),
        (c as u32) < 0x80 ==> (is_space(c) <==> c == ' ' || '\t' <= c <= '\r'),
        (c as u32) >= 0x80 ==> (is_space(c) <==> (c as u32 == 0x85 || c as u32 == 0xa0 || c as u32
            == 0x1680 || 0x2000 <= c as u32 <= 0x200a || c as u32 == 0x2028 || c as u32 == 0x2029
            || c as u32 == 0x202f || c as u32 == 0x205f || c as u32 == 0x3000)),
{
}

/// What is left of a text without the white space it starts with.
proof fn lemma_trim_start_parts(s: Seq<char>) -> (lead: Seq<char>)
    ensures
        s == lead + trim_start(s),
        forall|i: int| 0 <= i < lead.len() ==> is_space(#[trigger] lead[i]),
        trim_start(s).len() > 0 ==> !is_space(trim_start(s)[0]),
    decreases s.len(),
{
    if s.len() > 0 && is_space(s[0]) {
        let rest = lemma_trim_start_parts(s.drop_first());
        let lead = seq![s[0]] + rest;
        assert(trim_start(s) == trim_start(s.drop_first()));
        assert(s =~= seq![s[0]] + s.drop_first());
        assert(lead + trim_start(s) =~= seq![s[0]] + (rest + trim_start(s)));
        assert forall|i: int| 0 <= i < lead.len() implies is_space(#[trigger] lead[i]) by {
            if i > 0 {
                assert(lead[i] == rest[i - 1]);
            }
        }
        lead
    } else {
        assert(s =~= Seq::<char>::empty() + s);
        Seq::empty()
    }
}

/// What is left of a text without the white space it ends with.
proof fn lemma_trim_end_parts(s: Seq<char>) -> (trail: Seq<char>)
    ensures
        s == trim_end(s) + trail,
        forall|i: int| 0 <= i < trail.len() ==> is_space(#[trigger] trail[i]),
        trim_end(s).len() > 0 ==> !is_space(trim_end(s).last()),
    decreases s.len(),
{
    if s.len() > 0 && is_space(s.last()) {
        let rest = lemma_trim_end_parts(s.drop_last());
        let trail = rest.push(s.last());
        assert(trim_end(s) == trim_end(s.drop_last()));
        assert(s =~= s.drop_last().push(s.last()));
        assert(trim_end(s) + trail =~= (trim_end(s) + rest).push(s.last()));
        trail
    } else {
        assert(s =~= s + Seq::<char>::empty());
        Seq::empty()
    }
}

/// Trimming takes white space off both ends, all of it, and nothing else.
pub proof fn law_trimming_takes_just_the_space_around(s: Seq<char>) -> (around: (
    Seq<char>,
    Seq<char>,
))
    ensures
        s == around.0 + trimmed_text(s) + around.1,
        forall|i: int| 0 <= i < around.0.len() ==> is_space(#[trigger] around.0[i]),
        forall|i: int| 0 <= i < around.1.len() ==> is_space(#[trigger] around.1[i]),
        trimmed_text(s).len() > 0 ==> !is_space(trimmed_text(s)[0]) && !is_space(
            trimmed_text(s).last(),
        ),
{
    let lead = lemma_trim_start_parts(s);
    let trail = lemma_trim_end_parts(trim_start(s));
    let kept = trimmed_text(s);
    assert(s =~= lead + kept + trail);
    if kept.len() > 0 {
        assert(kept[0] == trim_start(s)[0]);
    }
    (lead, trail)
}

/// A text is blank just where it holds nothing but white space.
pub proof fn law_a_blank_text_is_all_space(s: Seq<char>)
    ensures
        trimmed_text(s).len() == 0 <==> forall|i: int|
            0 <= i < s.len() ==> is_space(#[trigger] s[i]),
{
    let around = law_trimming_takes_just_the_space_around(s);
    let kept = trimmed_text(s);
    if kept.len() > 0 {
        assert(s[around.0.len() as int] == kept[0]);
    } else {
        assert forall|i: int| 0 <= i < s.len() implies is_space(#[trigger] s[i]) by {
            if i < around.0.len() {
                assert(s[i] == around.0[i]);
            } else {
                assert(s[i] == around.1[i - around.0.len()]);
            }
        }
    }
}

/// A character is found where it first stands, and at the end where it does not.
pub proof fn law_a_character_is_found_where_it_first_stands(s: Seq<char>, c: char)
    ensures
        find_in(s, c) <= s.len(),
        forall|i: int| 0 <= i < find_in(s, c) ==> #[trigger] s[i] != c,
        find_in(s, c) < s.len() ==> s[find_in(s, c) as int] == c,
    decreases s.len(),
{
    if s.len() > 0 && s[0] != c {
        let rest = s.drop_first();
        law_a_character_is_found_where_it_first_stands(rest, c);
        assert forall|i: int| 0 <= i < find_in(s, c) implies #[trigger] s[i] != c by {
            if i > 0 {
                assert(rest[i - 1] != c);
            }
        }
    }
}

/// What follows a prefix is what makes it whole again, if anything does.
pub proof fn law_a_prefix_and_what_follows_are_the_whole(
    s: Seq<char>,
    prefix: Seq<char>,
    rest: Seq<char>,
)
    ensures
        after_prefix(s, prefix) == Some(rest) <==> s == prefix + rest,
        after_prefix(prefix + rest, prefix) == Some(rest),
{
    if s == prefix + rest {
        assert(s.take(prefix.len() as int) =~= prefix);
        assert(s.skip(prefix.len() as int) =~= rest);
    }
    if after_prefix(s, prefix) == Some(rest) {
        assert(s =~= prefix + rest);
    }
    let whole = prefix + rest;
    assert(whole.take(prefix.len() as int) =~= prefix);
    assert(whole.skip(prefix.len() as int) =~= rest);
}

/// A zero in front of digits changes nothing of their value.
proof fn lemma_leading_zero(s: Seq<char>)
    ensures
        digits_value(seq!['0'] + s) == digits_value(s),
    decreases s.len(),
{
    reveal_with_fuel(digits_value, 2);
    let padded = seq!['0'] + s;
    if s.len() == 0 {
        assert(padded.drop_last() =~= Seq::empty());
        assert(padded.last() == '0');
    } else {
        lemma_leading_zero(s.drop_last());
        assert(padded.drop_last() =~= seq!['0'] + s.drop_last());
    }
}

/// Digits have a value just where all of them are digits.
proof fn lemma_all_digits(s: Seq<char>)
    ensures
        digits_value(s) is Some <==> forall|i: int| 0 <= i < s.len() ==> is_digit(#[trigger] s[i]),
    decreases s.len(),
{
    if s.len() > 0 {
        let rest = s.drop_last();
        lemma_all_digits(rest);
        if digits_value(s) is Some {
            assert forall|i: int| 0 <= i < s.len() implies is_digit(#[trigger] s[i]) by {
                if i < rest.len() {
                    assert(is_digit(rest[i]));
                }
            }
        } else if is_digit(s.last()) {
            let i = choose|i: int| 0 <= i < rest.len() && !is_digit(#[trigger] rest[i]);
            assert(!is_digit(s[i]));
        } else {
            assert(!is_digit(s[s.len() - 1]));
        }
    }
}

/// A port number reads back as it was written, with or without a sign or zeros in front,
/// just where it fits in 16 bits.
pub proof fn law_port_numbers_read_back(n: nat)
    ensures
        n <= 65535 ==> port_number(decimal_text(n)) == Some(n as u16),
        n > 65535 ==> port_number(decimal_text(n)) is None,
        port_number(seq!['+'] + decimal_text(n)) == port_number(decimal_text(n)),
        port_number(seq!['0'] + decimal_text(n)) == port_number(decimal_text(n)),
{
    let text = decimal_text(n);
    law_decimal_numbers_read_back(n);
    lemma_decimal_digits(n);
    assert('0' <= text[0] <= '9');
    assert((seq!['+'] + text).drop_first() =~= text);
    lemma_leading_zero(text);
}

/// Nothing but digits behind at most one plus sign is a port number, and neither no text
/// nor a lone sign is.
pub proof fn law_only_digits_make_a_port(s: Seq<char>, i: int)
    requires
        port_number(s) is Some,
        0 <= i < s.len(),
    ensures
        '0' <= s[i] <= '9' || (i == 0 && s[0] == '+' && s.len() > 1),
        port_number(Seq::empty()) is None,
        port_number(seq!['+']) is None,
{
    let rest = s.drop_first();
    lemma_all_digits(s);
    lemma_all_digits(rest);
    assert(seq!['+'].drop_first() =~= Seq::empty());
    if s[0] == '+' {
        if i > 0 {
            assert(is_digit(rest[i - 1]));
        }
    } else {
        assert(is_digit(s[i]));
    }
}

/// The line that sets a cookie says its name, its value, that it lasts a year, and that
/// the whole site may read it.
pub proof fn law_a_cookie_line_says_it_all(name: &str, value: &str, line: String)
    requires
        call_ensures(set_cookie, (name, value), line),
    ensures
        line@ == cookie_line(name@, value@),
        line@ == cookie_field((name@, value@)) + "; Max-Age=31536000; Path=/; SameSite=Lax"@,
        line@ == name@ + seq!['='] + value@ + "; Max-Age=31536000; Path=/; SameSite=Lax"@,
{
    reveal_strlit("=");
    assert("="@ =~= seq!['=']);
}

/// The room of a name is found under the name, and only no name leads nowhere.
pub proof fn law_a_room_is_found_under_its_name(name: &str, path: Option<String>)
    requires
        call_ensures(room_path, (name,), path),
    ensures
        path is None <==> name@.len() == 0,
        path matches Some(p) ==> after_prefix(p@, "/room/"@) == Some(name@),
{
    if path matches Some(p) {
        law_a_prefix_and_what_follows_are_the_whole("/room/"@ + name@, "/room/"@, name@);
    }
}

/// White space around what is typed does not matter to where it leads.
pub proof fn law_space_around_a_name_does_not_matter(
    typed: &str,
    path: Option<String>,
    again: &str,
    second: Option<String>,
)
    requires
        call_ensures(submit, (typed,), path),
        call_ensures(submit, (again,), second),
        trimmed_text(typed@) == trimmed_text(again@),
    ensures
        path is None <==> second is None,
        path is Some ==> path->0@ == second->0@,
        path is Some ==> after_prefix(path->0@, "/room/"@) == Some(
            lowercase(trimmed_text(typed@)),
        ),
        path is None <==> lowercase(trimmed_text(typed@)).len() == 0,
{
    let name = lowercase(trimmed_text(typed@));
    law_a_prefix_and_what_follows_are_the_whole("/room/"@ + name, "/room/"@, name);
}

/// A cookie is looked up field by field: the first field decides where it has the name,
/// and what follows its semicolon does where it has not.
pub proof fn law_cookies_are_looked_up_field_by_field(
    field: Seq<char>,
    rest: Seq<char>,
    name: Seq<char>,
    value: Seq<char>,
)
    requires
        !field.contains(';'),
    ensures
        trimmed_text(field) == name + seq!['='] + value ==> cookie_in(
            field + seq![';'] + rest,
            name,
        ) == Some(value) && cookie_in(field, name) == Some(value),
        after_prefix(trimmed_text(field), name + seq!['=']) is None ==> cookie_in(
            field + seq![';'] + rest,
            name,
        ) == cookie_in(rest, name) && cookie_in(field, name) is None,
{
    let jar = field + seq![';'] + rest;
    let n = field.len();
    assert forall|i: int| 0 <= i < n implies #[trigger] field[i] != ';' by {}
    assert forall|i: int| 0 <= i < n implies #[trigger] jar[i] != ';' by {
        assert(jar[i] == field[i]);
    }
    crate::scan::lemma_find_in(jar, ';', n);
    crate::scan::lemma_find_in(field, ';', n);
    assert(jar.take(n as int) =~= field);
    assert(field.take(n as int) =~= field);
    assert(jar.skip(n as int + 1) =~= rest);
    law_a_prefix_and_what_follows_are_the_whole(trimmed_text(field), name + seq!['='], value);
}

} // verus!
