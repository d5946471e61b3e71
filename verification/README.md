# WebRTC Room

Rooms for peer-to-peer video calls: a small server that lets people into rooms and relays
their signals, and a browser client that connects them with each other. Media travels
between browsers; the server only introduces them.

## Layout

- `src/` is the library, written in Verus: every function states what it does and is
  proved to do it.
  - `server` is the room server: `access` (room names and sessions), `auth` (passwords),
    `rooms` (participants and their inboxes), `mailbox` (event channels), `chat` (history),
    `turn` (TURN credentials), `config` (settings), and the handlers themselves.
    `server::laws` states what holds across requests.
  - `services` is the client's engine: `webrtc` (the mesh of peer connections),
    `negotiation` (one offer/answer exchange), `ice` (servers and candidates),
    `audio_level` (who is speaking), `signaling` (requests and status), and session ids.
    `services::laws` states what holds over a whole visit.
  - `pages` and `components` are what the user sees: the landing page and its cookies, the
    room page as one state, and the bar under the stage. `pages::laws` states what holds
    whatever the room sends.
  - `types` are the messages; `text`, `scan`, `roster` and `directory` are what the rest is
    built on.
- `app/` is the program around it: HTTP routes, event streams, the browser's connections
  and audio graph, and the views.
- `tests/` runs the library from outside.

## What is taken on trust

Calls into other crates stand behind small functions whose contracts are not proved here.
They are `DashMap` (`directory`), tokio's broadcast channel (`server::mailbox`),
constant-time comparison (`server::auth`), HMAC-SHA1, SHA-256, base64, hexadecimal and
random numbers (`server::turn`), random UUIDs (`services`), and Unicode lowercase
(`pages::home`). Each says in its doc comment what is claimed of the call.

## API

All endpoints are under `/api/`; bodies are JSON.

| Endpoint | Purpose |
|---|---|
| `POST /room/:id/join` | join a room, or claim it under a password |
| `GET /room/:id/events?session_id=` | event stream: a snapshot, then what happens |
| `POST /room/:id/signal?session_id=` | relay an offer, answer or candidate to one peer |
| `POST /room/:id/chat?session_id=` | say something to everyone |
| `GET /room/:id/chat/history?session_id=` | the last 100 messages |
| `GET /turn-credentials` | TURN credentials, good for an hour |

The server reads `TURN_SECRET`, `TURN_HOST` and `TURN_PORT` from its environment.
