use vstd::prelude::*;
use vstd::utf8::*;

verus! {

/// The header of a raw WebSocket frame, field by field.
#[derive(Debug, Clone, Copy, PartialEq, Eq)]
pub struct FrameHeader {
    pub is_final: bool,
    pub rsv1: bool,
    pub rsv2: bool,
    pub rsv3: bool,
    /// The opcode as its number on the wire (0 to 15).
    pub opcode: u8,
    pub mask: Option<[u8; 4]>,
}

/// The opcode number of a close frame.
pub const CLOSE_OPCODE: u8 = 8;

impl FrameHeader {
    /// The header of a final, unmasked close frame: the default header.
    pub fn default_header() -> (h: FrameHeader)
        ensures
            h == default_frame_header(),
    {
        FrameHeader {
            is_final: true,
            rsv1: false,
            rsv2: false,
            rsv3: false,
            opcode: CLOSE_OPCODE,
            mask: None,
        }
    }
}

/// A final, unmasked close frame header.
pub open spec fn default_frame_header() -> FrameHeader {
    FrameHeader {
        is_final: true,
        rsv1: false,
        rsv2: false,
        rsv3: false,
        opcode: CLOSE_OPCODE,
        mask: None,
    }
}

/// A raw WebSocket frame: its header and its payload.
#[derive(Debug, Clone, PartialEq, Eq)]
pub struct Frame {
    pub header: FrameHeader,
    pub payload: Vec<u8>,
}

/// A frame as a header and a sequence of payload bytes.
pub struct FrameView {
    pub header: FrameHeader,
    pub payload: Seq<u8>,
}

impl View for Frame {
    type V = FrameView;

    open spec fn view(&self) -> FrameView {
        FrameView { header: self.header, payload: self.payload@ }
    }
}

/// The frame with the default header and no payload.
pub open spec fn empty_frame_view() -> FrameView {
    FrameView { header: default_frame_header(), payload: Seq::empty() }
}

/// How many bytes a header takes for a payload of `n` bytes: two, then two or
/// eight more for a long payload, then four for a mask.
pub open spec fn header_len(masked: bool, n: int) -> int {
    2 + (if n < 126 {
        0int
    } else if n < 65536 {
        2int
    } else {
        8int
    }) + (if masked {
        4int
    } else {
        0int
    })
}

/// The length of a frame: its header and its payload.
pub open spec fn frame_len(f: FrameView) -> int {
    header_len(f.header.mask is Some, f.payload.len() as int) + f.payload.len()
}

/// A frame whose length fits in a `usize`.
pub open spec fn frame_len_fits(f: FrameView) -> bool {
    frame_len(f) <= usize::MAX
}

impl Frame {
    /// The frame with the default header and no payload.
    pub fn empty() -> (f: Frame)
        ensures
            f@ == empty_frame_view(),
    {
        Frame { header: FrameHeader::default_header(), payload: Vec::new() }
    }

    /// The length of the frame, header and payload together.
    pub fn len(&self) -> (n: usize)
        requires
            frame_len_fits(self@),
        ensures
            n == frame_len(self@),
    {
        let n = self.payload.len();
        let extra: usize = if n < 126 {
            0
        } else if n < 65536 {
            2
        } else {
            8
        };
        let mask: usize = if self.header.mask.is_some() {
            4
        } else {
            0
        };
        2 + extra + mask + n
    }
}

/// A close frame: its status code and its reason.
#[derive(Debug, Clone, PartialEq, Eq)]
pub struct CloseFrame {
    pub code: u16,
    pub reason: String,
}

/// A close frame as a code and a sequence of characters.
pub struct CloseFrameView {
    pub code: u16,
    pub reason: Seq<char>,
}

impl View for CloseFrame {
    type V = CloseFrameView;

    open spec fn view(&self) -> CloseFrameView {
        CloseFrameView { code: self.code, reason: self.reason@ }
    }
}

/// The view of an optional close frame.
pub open spec fn close_view(c: Option<CloseFrame>) -> Option<CloseFrameView> {
    match c {
        Some(f) => Some(f@),
        None => None,
    }
}

/// A message as a WebSocket connection carries it.
#[derive(Debug, Clone, PartialEq, Eq)]
pub enum WsMessage {
    Text(String),
    Binary(Vec<u8>),
    Ping(Vec<u8>),
    Pong(Vec<u8>),
    Close(Option<CloseFrame>),
    Frame(Frame),
}

/// A WebSocket message over sequences.
pub enum WsMessageView {
    Text(Seq<char>),
    Binary(Seq<u8>),
    Ping(Seq<u8>),
    Pong(Seq<u8>),
    Close(Option<CloseFrameView>),
    Frame(FrameView),
}

impl View for WsMessage {
    type V = WsMessageView;

    open spec fn view(&self) -> WsMessageView {
        match self {
            WsMessage::Text(s) => WsMessageView::Text(s@),
            WsMessage::Binary(d) => WsMessageView::Binary(d@),
            WsMessage::Ping(d) => WsMessageView::Ping(d@),
            WsMessage::Pong(d) => WsMessageView::Pong(d@),
            WsMessage::Close(c) => WsMessageView::Close(close_view(*c)),
            WsMessage::Frame(f) => WsMessageView::Frame(f@),
        }
    }
}

} // verus!

verus! {

impl CloseFrame {
    /// A copy of the close frame.
    pub fn duplicate(&self) -> (r: CloseFrame)
        ensures
            r@ == self@,
    {
        CloseFrame { code: self.code, reason: self.reason.clone() }
    }
}

impl Frame {
    /// A copy of the frame.
    pub fn duplicate(&self) -> (r: Frame)
        ensures
            r@ == self@,
    {
        Frame { header: self.header, payload: crate::wire::copy_bytes(&self.payload) }
    }
}

/// A copy of an optional close frame.
pub fn duplicate_close(c: &Option<CloseFrame>) -> (r: Option<CloseFrame>)
    ensures
        close_view(r) == close_view(*c),
{
    match c {
        Some(f) => Some(f.duplicate()),
        None => None,
    }
}

} // verus!

verus! {

broadcast use vstd::utf8::group_utf8_lib;

/// The length of a WebSocket message's content in bytes; a raw frame counts
/// its header too.
pub open spec fn ws_len(w: WsMessageView) -> int {
    match w {
        WsMessageView::Text(s) => encode_utf8(s).len() as int,
        WsMessageView::Binary(d) => d.len() as int,
        WsMessageView::Ping(d) => d.len() as int,
        WsMessageView::Pong(d) => d.len() as int,
        WsMessageView::Close(None) => 0,
        WsMessageView::Close(Some(f)) => encode_utf8(f.reason).len() as int,
        WsMessageView::Frame(f) => frame_len(f),
    }
}

/// A WebSocket message whose length fits in a `usize`.
pub open spec fn ws_len_fits(w: WsMessageView) -> bool {
    match w {
        WsMessageView::Frame(f) => frame_len_fits(f),
        _ => true,
    }
}

impl WsMessage {
    /// The length of the content in bytes; a raw frame counts its header too.
    pub fn len(&self) -> (n: usize)
        requires
            ws_len_fits(self@),
        ensures
            n == ws_len(self@),
    {
        match self {
            WsMessage::Text(s) => crate::wire::string_bytes(s).len(),
            WsMessage::Binary(d) => d.len(),
            WsMessage::Ping(d) => d.len(),
            WsMessage::Pong(d) => d.len(),
            WsMessage::Close(None) => 0,
            WsMessage::Close(Some(f)) => crate::wire::string_bytes(&f.reason).len(),
            WsMessage::Frame(f) => f.len(),
        }
    }
}

} // verus!
