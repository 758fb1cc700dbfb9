//! Frame serialization for a streaming animated GIF writer: palette
//! canonicalization (one transparent index per frame) and the stream state
//! machine that opens the output once and then appends frames.
pub mod codec;
pub mod encoder;
pub mod frame;
pub mod image;
