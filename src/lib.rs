//! Verified decoders for real-time media signalling and transport:
//! SDP session descriptions, RTP headers and packets, the RTCP report
//! family, and the codec descriptions carried by `rtpmap`/`fmtp` lines.

pub mod bytes;
pub mod error;
pub mod text;
pub mod network_order;
pub mod rtp;
pub mod rtcp;
pub mod net;
pub mod sdp;
pub mod timing;
pub mod codec;
pub mod media_description;
pub mod media_session;
pub mod tpkt;
pub mod parsing;
