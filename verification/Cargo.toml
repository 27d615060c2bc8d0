[package]
name = "sound_tts"
version = "0.1.0"
edition = "2021"
publish = false

[dependencies]
lazy_static = "1"
libc = "0.2"
windows-result = "0.2"
windows = { version = "0.58", features = ["Devices_Enumeration", "Foundation", "Foundation_Collections", "Media_Core", "Media_Playback", "Media_SpeechSynthesis", "Storage_Streams"] }
