//! Verified core of the Tahti Radio Discord bot: the audio hand-off buffer,
//! the track queue and playlist fallback, the parsing of yt-dlp output, and the
//! decisions behind the slash commands.

pub mod text;
pub mod track;
pub mod ytdlp;
pub mod source;
pub mod decode;
pub mod audio_stream;
pub mod broadcast;
pub mod playlist;
pub mod config;
pub mod sinks;
