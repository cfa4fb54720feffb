//! The host/guest execution protocol of join transforms over stream records:
//! a wire codec, the join engine and its error sentinels; and the option
//! handling of the streaming unit and the version command.
pub mod codec;
pub mod envelope;
pub mod spu_cli;
pub mod version;
pub mod join;
pub mod engine;
