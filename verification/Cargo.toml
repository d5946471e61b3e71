[package]
name = "webrtc_room"
version = "0.1.0"
edition = "2021"
publish = false

[dependencies]
axum = "0.8"
base64 = "0.22"
constant_time_eq = "0.3"
dashmap = "6"
futures = "0.3"
gloo-net = "0.6"
hex = "0.4"
hmac = "0.12"
js-sys = "0.3"
leptos = { version = "0.8", features = ["csr", "ssr"] }
leptos_router = "0.8"
rand = "0.9"
serde = { version = "1", features = ["derive"] }
serde_json = "1"
sha1 = "0.10"
sha2 = "0.10"
tokio = { version = "1", features = ["rt-multi-thread", "macros", "net", "signal", "sync"] }
tokio-stream = { version = "0.1", features = ["sync"] }
tower-http = { version = "0.6", features = ["fs"] }
tracing = "0.1"
tracing-subscriber = { version = "0.3", features = ["env-filter"] }
uuid = { version = "1", features = ["v4"] }
wasm-bindgen = "0.2"
wasm-bindgen-futures = "0.4"
web-sys = { version = "0.3", features = ["AnalyserNode", "AudioContext", "AudioContextState", "AudioNode", "BaseAudioContext", "Document", "Element", "EventSource", "HtmlDocument", "HtmlElement", "HtmlMediaElement", "HtmlVideoElement", "MediaDevices", "MediaStream", "MediaStreamAudioSourceNode", "MediaStreamConstraints", "MediaStreamTrack", "MessageEvent", "Navigator", "RtcConfiguration", "RtcIceCandidate", "RtcIceCandidateInit", "RtcIceConnectionState", "RtcIceServer", "RtcPeerConnection", "RtcPeerConnectionIceEvent", "RtcPeerConnectionState", "RtcRtpSender", "RtcRtpTransceiver", "RtcSdpType", "RtcSessionDescriptionInit", "RtcSignalingState", "RtcTrackEvent", "Storage", "Window", "console"] }
