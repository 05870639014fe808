//! Command message types carried on the RTMP control channel.

use vstd::prelude::*;

use crate::amf::AmfValue;

verus! {

/// A parsed AMF0 command message.
///
/// The transaction id is an AMF0 number on the wire; it is carried here as
/// the raw bits of the IEEE 754 double.
#[derive(Debug, Clone)]
pub struct Command {
    /// Command name ("connect", "publish", ...)
    pub name: String,
    /// Transaction id (double bits)
    pub transaction_id: u64,
    /// The command object argument
    pub command_object: AmfValue,
    /// Further arguments
    pub arguments: Vec<AmfValue>,
    /// Message stream id the command arrived on
    pub stream_id: u32,
}

/// Parameters of a `connect` command.
#[derive(Debug, Clone)]
pub struct ConnectParams {
    /// Application name
    pub app: String,
    /// tcUrl field, if present
    pub tc_url: Option<String>,
    /// flashVer field, if present
    pub flash_ver: Option<String>,
    /// pageUrl field, if present
    pub page_url: Option<String>,
    /// objectEncoding field (double bits), if present
    pub object_encoding: Option<u64>,
}

impl Default for ConnectParams {
    /// Empty connect parameters.
    fn default() -> (r: Self)
        ensures
            r.app@ == Seq::<char>::empty(),
            r.tc_url is None,
            r.flash_ver is None,
            r.page_url is None,
            r.object_encoding is None,
    {
        ConnectParams {
            app: String::new(),
            tc_url: None,
            flash_ver: None,
            page_url: None,
            object_encoding: None,
        }
    }
}

/// Events reported by a publishing client to its host.
#[derive(Debug)]
pub enum PublishEvent {
    /// Connected and ready to publish
    Connected,
    /// Publishing started on the server
    Publishing,
    /// An error occurred
    Error(String),
    /// Disconnected
    Disconnected,
}

} // verus!
