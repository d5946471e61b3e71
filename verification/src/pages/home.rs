//! The landing page: which room to go to, and the cookies that remember who comes.

use vstd::prelude::*;
use vstd::string::*;

use crate::scan::{
    after_prefix, find, find_in, is_space, lemma_find_in, lemma_nothing_to_trim, strip_prefix,
    trim_end, trim_start, trimmed, trimmed_text,
};

verus! {

/// A text in lowercase.
pub uninterp spec fn lowercase(s: Seq<char>) -> Seq<char>;

/// `str::to_lowercase`: the text in lowercase, as Unicode defines it.
#[verifier::external_body]
fn to_lowercase(s: &str) -> (lower: String)
    ensures
        lower@ == lowercase(s@),
{
    s.to_lowercase()
}

/// Where the room of a name is found; a name with nothing in it leads nowhere.
pub fn room_path(name: &str) -> (path: Option<String>)
    ensures
        match path {
            Some(p) => name@.len() > 0 && p@ == "/room/"@ + name@,
            None => name@.len() == 0,
        },
{
    if name.is_empty() {
        None
    } else {
        Some("/room/".to_owned().concat(name))
    }
}

/// Where to go for what was typed as a room name: surrounding white space and case do
/// not matter.
pub fn submit(typed: &str) -> (path: Option<String>)
    ensures
        match path {
            Some(p) => {
                &&& lowercase(trimmed_text(typed@)).len() > 0
                &&& p@ == "/room/"@ + lowercase(trimmed_text(typed@))
            },
            None => lowercase(trimmed_text(typed@)).len() == 0,
        },
{
    let name = to_lowercase(trimmed(typed));
    room_path(name.as_str())
}

/// The value of a cookie in a cookie string: of the fields between semicolons, the first
/// that starts with the name and an equals sign, once the white space around it is gone.
pub open spec fn cookie_in(jar: Seq<char>, name: Seq<char>) -> Option<Seq<char>>
    decreases jar.len(),
{
    let end = find_in(jar, ';') as int;
    match after_prefix(trimmed_text(jar.take(end)), name + seq!['=']) {
        Some(value) => Some(value),
        None => if end < jar.len() {
            cookie_in(jar.skip(end + 1), name)
        } else {
            None
        },
    }
}

/// Read a cookie value by name.
pub fn get_cookie(jar: &str, name: &str) -> (value: Option<String>)
    ensures
        match value {
            Some(v) => cookie_in(jar@, name@) == Some(v@),
            None => cookie_in(jar@, name@) is None,
        },
{
    proof {
        reveal_strlit("=");
        assert("="@ =~= seq!['=']);
    }
    let prefix = name.to_owned().concat("=");
    let mut rest = jar;
    loop
        invariant
            prefix@ == name@ + seq!['='],
            cookie_in(jar@, name@) == cookie_in(rest@, name@),
        decreases rest@.len(),
    {
        let total: usize = rest.unicode_len();
        let end = find(rest, ';');
        assert(rest@.subrange(0, end as int) =~= rest@.take(end as int));
        match strip_prefix(trimmed(rest.substring_char(0, end)), prefix.as_str()) {
            Some(value) => return Some(value.to_owned()),
            None => {},
        }
        if end >= total {
            return None;
        }
        assert(rest@.subrange(end + 1, total as int) =~= rest@.skip(end + 1));
        rest = rest.substring_char(end + 1, total);
    }
}

/// The line that sets a cookie (1 year expiry, same-site lax).
pub open spec fn cookie_line(name: Seq<char>, value: Seq<char>) -> Seq<char> {
    name + "="@ + value + "; Max-Age=31536000; Path=/; SameSite=Lax"@
}

/// Set a cookie (1 year expiry, same-site lax): the line that does.
pub fn set_cookie(name: &str, value: &str) -> (line: String)
    ensures
        line@ == cookie_line(name@, value@),
{
    name.to_owned().concat("=").concat(value).concat("; Max-Age=31536000; Path=/; SameSite=Lax")
}

/// One cookie as a cookie string shows it.
pub open spec fn cookie_field(cookie: (Seq<char>, Seq<char>)) -> Seq<char> {
    cookie.0 + seq!['='] + cookie.1
}

/// Some cookies as a cookie string shows them: one after the other, with a semicolon and
/// a space in between.
pub open spec fn cookie_string(cookies: Seq<(Seq<char>, Seq<char>)>) -> Seq<char>
    decreases cookies.len(),
{
    if cookies.len() == 0 {
        Seq::empty()
    } else if cookies.len() == 1 {
        cookie_field(cookies[0])
    } else {
        cookie_field(cookies[0]) + seq![';', ' '] + cookie_string(cookies.drop_first())
    }
}

/// Whether a cookie can be told apart in a cookie string: no semicolon in it, no equals
/// sign in its name, and no white space around it.
pub open spec fn is_plain(cookie: (Seq<char>, Seq<char>)) -> bool {
    &&& !cookie_field(cookie).contains(';')
    &&& !cookie.0.contains('=')
    &&& !is_space(cookie_field(cookie)[0])
    &&& !is_space(cookie_field(cookie).last())
}

/// The value of the first cookie of a name.
pub open spec fn first_named(
    cookies: Seq<(Seq<char>, Seq<char>)>,
    name: Seq<char>,
) -> Option<Seq<char>>
    decreases cookies.len(),
{
    if cookies.len() == 0 {
        None
    } else if cookies[0].0 == name {
        Some(cookies[0].1)
    } else {
        first_named(cookies.drop_first(), name)
    }
}

/// A plain cookie's field starts with a name and an equals sign just when it has that
/// name, and its value follows.
proof fn lemma_field_has_its_name(cookie: (Seq<char>, Seq<char>), name: Seq<char>)
    requires
        is_plain(cookie),
        !name.contains('='),
    ensures
        after_prefix(cookie_field(cookie), name + seq!['=']) == (if cookie.0 == name {
            Some(cookie.1)
        } else {
            None
        }),
{
    let field = cookie_field(cookie);
    let prefix = name + seq!['='];
    if cookie.0 == name {
        assert(field.take(prefix.len() as int) =~= prefix);
        assert(prefix.is_prefix_of(field));
        assert(field.skip(prefix.len() as int) =~= cookie.1);
    } else if prefix.is_prefix_of(field) {
        assert forall|i: int| 0 <= i < prefix.len() implies #[trigger] field[i] == prefix[i] by {
            assert(prefix =~= field.subrange(0, prefix.len() as int));
        }
        assert(field[cookie.0.len() as int] == '=');
        assert(prefix[name.len() as int] == '=');
        if cookie.0.len() < name.len() {
            assert(field[cookie.0.len() as int] == prefix[cookie.0.len() as int]);
            assert(name[cookie.0.len() as int] == '=');
            assert(name.contains('='));
        } else if name.len() < cookie.0.len() {
            assert(field[name.len() as int] == prefix[name.len() as int]);
            assert(cookie.0[name.len() as int] == '=');
            assert(cookie.0.contains('='));
        } else {
            assert forall|i: int| 0 <= i < name.len() implies #[trigger] cookie.0[i] == name[i] by {
                assert(field[i] == prefix[i]);
            }
            assert(cookie.0 =~= name);
        }
    }
}

/// A space before a plain field does not show in what is found.
proof fn lemma_leading_space(field: Seq<char>)
    requires
        field.len() > 0,
        !is_space(field[0]),
        !is_space(field.last()),
    ensures
        trimmed_text(seq![' '] + field) == field,
{
    let s = seq![' '] + field;
    assert(is_space(s[0]));
    assert(s.drop_first() =~= field);
    assert(trim_start(field) == field);
    assert(trim_start(s) == field);
    assert(trim_end(field) == field);
}

/// What a cookie string holds past the space before it.
proof fn lemma_cookies_read_back(
    cookies: Seq<(Seq<char>, Seq<char>)>,
    name: Seq<char>,
    lead: Seq<char>,
)
    requires
        cookies.len() > 0,
        forall|i: int| 0 <= i < cookies.len() ==> is_plain(#[trigger] cookies[i]),
        !name.contains('='),
        lead == Seq::<char>::empty() || lead == seq![' '],
    ensures
        cookie_in(lead + cookie_string(cookies), name) == first_named(cookies, name),
    decreases cookies.len(),
{
    let field = cookie_field(cookies[0]);
    let jar = lead + cookie_string(cookies);
    let first = lead + field;
    assert(is_plain(cookies[0]));
    assert forall|i: int| 0 <= i < first.len() implies #[trigger] first[i] != ';' by {
        if i >= lead.len() {
            assert(first[i] == field[i - lead.len()]);
            if first[i] == ';' {
                assert(field.contains(';'));
            }
        }
    }
    assert(jar.take(first.len() as int) =~= first);
    assert forall|i: int| 0 <= i < first.len() implies #[trigger] jar[i] != ';' by {
        assert(first[i] != ';');
        assert(jar[i] == first[i]);
    }
    lemma_find_in(jar, ';', first.len());
    assert(trimmed_text(first) == field) by {
        if lead.len() == 0 {
            assert(first =~= field);
            lemma_nothing_to_trim(field);
        } else {
            lemma_leading_space(field);
        }
    }
    lemma_field_has_its_name(cookies[0], name);
    if cookies.len() > 1 {
        let rest = cookies.drop_first();
        assert forall|i: int| 0 <= i < rest.len() implies is_plain(#[trigger] rest[i]) by {
            assert(rest[i] == cookies[i + 1]);
        }
        assert(jar.skip(first.len() as int + 1) =~= seq![' '] + cookie_string(rest));
        lemma_cookies_read_back(rest, name, seq![' ']);
    } else {
        reveal_with_fuel(first_named, 2);
        assert(jar =~= first);
    }
}

/// A cookie reads back as it was set: looked up in the string that shows it among
/// others, a name gives the value of the first cookie of that name.
pub proof fn law_cookies_read_back(cookies: Seq<(Seq<char>, Seq<char>)>, name: Seq<char>)
    requires
        forall|i: int| 0 <= i < cookies.len() ==> is_plain(#[trigger] cookies[i]),
        !name.contains('='),
    ensures
        cookie_in(cookie_string(cookies), name) == first_named(cookies, name),
{
    if cookies.len() == 0 {
        let jar = cookie_string(cookies);
        assert(jar.take(0) =~= Seq::empty());
        assert(trimmed_text(jar.take(0)) == Seq::<char>::empty());
    } else {
        lemma_cookies_read_back(cookies, name, Seq::empty());
        assert(Seq::<char>::empty() + cookie_string(cookies) =~= cookie_string(cookies));
    }
}

/// The line that sets a cookie starts with the field that shows it.
pub proof fn law_a_cookie_line_starts_with_its_field(name: Seq<char>, value: Seq<char>)
    ensures
        cookie_field((name, value)).is_prefix_of(cookie_line(name, value)),
{
    reveal_strlit("=");
    assert("="@ =~= seq!['=']);
    let field = cookie_field((name, value));
    assert(cookie_line(name, value).take(field.len() as int) =~= field);
}

} // verus!
