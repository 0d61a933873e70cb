//! Verified core of a voice-dictation assistant: transcript text handling,
//! correction learning, hotkey and recording state machines, settings logic.

pub mod correction_watcher;
pub mod audio;
pub mod corrections;
pub mod decimal;
pub mod gemma_server;
pub mod hotkey;
pub mod input_device_cache;
pub mod local_parakeet;
pub mod local_qwen3;
pub mod local_stt;
pub mod model_cmds;
pub mod permissions;
pub mod pipeline;
pub mod polish;
pub mod proper_nouns;
pub mod screen_context;
pub mod screen_ocr;
pub mod state;
pub mod stt;
pub mod text;
pub mod transcript;
pub mod tray;
pub mod warm;
pub mod windows;
