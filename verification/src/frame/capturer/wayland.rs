use crate::config::app::WaylandProtocol;
use crate::frame::object::Object;
use crate::text::{contains, spec_contains};
use vstd::prelude::*;

verus! {

/// The pause after a frame was processed, in milliseconds.
pub const DELAY_SUCCESS_MS: u64 = 100;

/// The pause after a frame was cancelled, in milliseconds.
pub const DELAY_FAILURE_MS: u64 = 1000;

/// The pixel format that is taken for frames whose format is not told.
pub const DEFAULT_FORMAT: u32 = 875713112;

/// Which of the compositor's interfaces were found.
#[derive(Debug, PartialEq, Eq, Clone, Copy, Structural)]
pub struct Globals {
    /// linux-dmabuf-v1
    pub dmabuf: bool,
    /// ext-image-capture-source-v1
    pub img_capture_source_manager: bool,
    /// ext-image-copy-capture-v1
    pub img_copy_capture_manager: bool,
    /// wlr-screencopy-unstable-v1
    pub screencopy_manager: bool,
    /// wlr-export-dmabuf-unstable-v1
    pub dmabuf_manager: bool,
}

/// Why no protocol can be used.
#[derive(Debug, PartialEq, Eq, Clone, Copy, Structural)]
pub enum ProtocolError {
    /// The protocol that was asked for is not there.
    Unavailable(WaylandProtocol),
    /// The protocol that was asked for is there, but the image capture
    /// source protocol that it needs is not.
    NeedsCaptureSource(WaylandProtocol),
    /// The protocol that was asked for is there, but the linux-dmabuf
    /// protocol that it needs is not.
    NeedsDmabuf(WaylandProtocol),
    /// None of the protocols is there with what it needs.
    NoneSupported,
}

impl Globals {
    /// Whether `protocol` is there with all that it needs.
    pub open spec fn spec_supports(&self, protocol: WaylandProtocol) -> bool {
        match protocol {
            WaylandProtocol::ExtImageCopyCaptureV1 => self.img_copy_capture_manager
                && self.img_capture_source_manager && self.dmabuf,
            WaylandProtocol::WlrScreencopyUnstableV1 => self.screencopy_manager && self.dmabuf,
            WaylandProtocol::WlrExportDmabufUnstableV1 => self.dmabuf_manager,
            WaylandProtocol::Any => false,
        }
    }

    /// The protocol by which frames are asked for, where `requested` is
    /// the one of the configuration.
    ///
    /// A protocol that is asked for by name is used, or is an error: that
    /// it is missing, or else what it needs and is missing, the capture
    /// source before linux-dmabuf. Where any will do, the first that is
    /// there with all it needs is used, in the order ext-image-copy-capture,
    /// wlr-screencopy, wlr-export-dmabuf.
    pub open spec fn spec_select(&self, requested: WaylandProtocol) -> Result<
        WaylandProtocol,
        ProtocolError,
    > {
        match requested {
            WaylandProtocol::ExtImageCopyCaptureV1 => if !self.img_copy_capture_manager {
                Err(ProtocolError::Unavailable(requested))
            } else if !self.img_capture_source_manager {
                Err(ProtocolError::NeedsCaptureSource(requested))
            } else if !self.dmabuf {
                Err(ProtocolError::NeedsDmabuf(requested))
            } else {
                Ok(requested)
            },
            WaylandProtocol::WlrScreencopyUnstableV1 => if !self.screencopy_manager {
                Err(ProtocolError::Unavailable(requested))
            } else if !self.dmabuf {
                Err(ProtocolError::NeedsDmabuf(requested))
            } else {
                Ok(requested)
            },
            WaylandProtocol::WlrExportDmabufUnstableV1 => if !self.dmabuf_manager {
                Err(ProtocolError::Unavailable(requested))
            } else {
                Ok(requested)
            },
            WaylandProtocol::Any => if self.spec_supports(WaylandProtocol::ExtImageCopyCaptureV1) {
                Ok(WaylandProtocol::ExtImageCopyCaptureV1)
            } else if self.spec_supports(WaylandProtocol::WlrScreencopyUnstableV1) {
                Ok(WaylandProtocol::WlrScreencopyUnstableV1)
            } else if self.spec_supports(WaylandProtocol::WlrExportDmabufUnstableV1) {
                Ok(WaylandProtocol::WlrExportDmabufUnstableV1)
            } else {
                Err(ProtocolError::NoneSupported)
            },
        }
    }

    /// The protocol by which frames are asked for.
    pub fn select(&self, requested: WaylandProtocol) -> (selected: Result<
        WaylandProtocol,
        ProtocolError,
    >)
        ensures
            selected == self.spec_select(requested),
            selected matches Ok(protocol) ==> self.spec_supports(protocol),
    {
        match requested {
            WaylandProtocol::ExtImageCopyCaptureV1 => if !self.img_copy_capture_manager {
                Err(ProtocolError::Unavailable(requested))
            } else if !self.img_capture_source_manager {
                Err(ProtocolError::NeedsCaptureSource(requested))
            } else if !self.dmabuf {
                Err(ProtocolError::NeedsDmabuf(requested))
            } else {
                Ok(requested)
            },
            WaylandProtocol::WlrScreencopyUnstableV1 => if !self.screencopy_manager {
                Err(ProtocolError::Unavailable(requested))
            } else if !self.dmabuf {
                Err(ProtocolError::NeedsDmabuf(requested))
            } else {
                Ok(requested)
            },
            WaylandProtocol::WlrExportDmabufUnstableV1 => if !self.dmabuf_manager {
                Err(ProtocolError::Unavailable(requested))
            } else {
                Ok(requested)
            },
            WaylandProtocol::Any => if self.img_copy_capture_manager
                && self.img_capture_source_manager && self.dmabuf {
                Ok(WaylandProtocol::ExtImageCopyCaptureV1)
            } else if self.screencopy_manager && self.dmabuf {
                Ok(WaylandProtocol::WlrScreencopyUnstableV1)
            } else if self.dmabuf_manager {
                Ok(WaylandProtocol::WlrExportDmabufUnstableV1)
            } else {
                Err(ProtocolError::NoneSupported)
            },
        }
    }
}

/// Where the capture of an output stands.
#[derive(Debug, PartialEq, Eq, Clone, Copy, Structural)]
pub enum State {
    /// No frame is asked for.
    Idle,
    /// A frame is asked for and has not arrived.
    Requested,
    /// A frame has arrived and is being processed.
    Ready,
    /// The compositor gave the frame up.
    Cancelled,
}

/// What happened to the capture.
#[derive(Debug, PartialEq, Eq, Clone, Copy, Structural)]
pub enum Event {
    /// The loop came round.
    Wake,
    /// The compositor delivered the frame.
    Delivered,
    /// The compositor gave the frame up, for now or for good.
    Cancel { permanent: bool },
    /// What the last action asked for is done.
    Done,
}

/// What is to be done for the capture.
#[derive(Debug, PartialEq, Eq, Clone, Copy, Structural)]
pub enum Action {
    /// Ask the compositor for a frame of the output.
    Request,
    /// Compute the lightness of the frame and hand it to the predictor.
    Process,
    /// Let go of the frame.
    Release,
    /// Pause for this many milliseconds.
    Sleep(u64),
    /// Give the output up.
    Abort,
    /// Wait for what the compositor sends.
    Dispatch,
}

/// The capture of one output through the compositor.
#[derive(Debug, PartialEq, Eq)]
pub struct Capturer {
    pub protocol: WaylandProtocol,
    pub state: State,
    /// The global under which the output is known, once it is matched.
    pub output_global_id: Option<u32>,
    /// Whether an output is matched.
    pub has_output: bool,
    /// The frame that is being put together.
    pub pending_frame: Option<Object>,
}

/// The state after `event`, and what is to be done.
///
/// From `Idle` a frame is asked for as soon as an output is bound. A
/// frame that arrives is processed, and after a pause of
/// `DELAY_SUCCESS_MS` the capture is idle again. A frame that is given up
/// for now is let go, and after a pause of `DELAY_FAILURE_MS` the capture
/// is idle again. A frame that is given up for good ends the capture.
pub open spec fn spec_next(state: State, has_output: bool, event: Event) -> (State, Action) {
    match (state, event) {
        (State::Idle, Event::Wake) => if has_output {
            (State::Requested, Action::Request)
        } else {
            (State::Idle, Action::Dispatch)
        },
        (State::Requested, Event::Delivered) => (State::Ready, Action::Process),
        (State::Requested, Event::Cancel { permanent }) => if permanent {
            (State::Cancelled, Action::Abort)
        } else {
            (State::Cancelled, Action::Release)
        },
        (State::Ready, Event::Done) => (State::Idle, Action::Sleep(DELAY_SUCCESS_MS)),
        (State::Cancelled, Event::Done) => (State::Idle, Action::Sleep(DELAY_FAILURE_MS)),
        _ => (state, Action::Dispatch),
    }
}

impl Capturer {
    /// A capturer that is idle and has no output yet.
    pub fn new(protocol: WaylandProtocol) -> (capturer: Self)
        ensures
            capturer.protocol == protocol,
            capturer.state == State::Idle,
            capturer.output_global_id is None,
            !capturer.has_output,
            capturer.pending_frame is None,
    {
        Self {
            protocol,
            state: State::Idle,
            output_global_id: None,
            has_output: false,
            pending_frame: None,
        }
    }

    /// Looks at an output that the compositor describes as `description`.
    /// The first output whose description contains `desired` is bound;
    /// whether this one was is returned.
    pub fn on_description(&mut self, description: &str, desired: &str, global_id: Option<u32>) -> (
        bound: bool
    )
        ensures
            bound == (spec_contains(description@, desired@) && !old(self).has_output),
            bound ==> final(self).has_output && final(self).output_global_id == global_id,
            !bound ==> final(self).has_output == old(self).has_output && final(self).output_global_id == old(self).output_global_id,
            final(self).state == old(self).state,
            final(self).protocol == old(self).protocol,
            final(self).pending_frame == old(self).pending_frame,
    {
        if contains(description, desired) && !self.has_output {
            self.has_output = true;
            self.output_global_id = global_id;
            true
        } else {
            false
        }
    }

    /// Notes that the compositor took back the global `global_id`. Where
    /// that is the output's, no output is bound any more.
    pub fn on_global_remove(&mut self, global_id: u32) -> (unbound: bool)
        ensures
            unbound == (old(self).output_global_id == Some(global_id)),
            unbound ==> !final(self).has_output && final(self).output_global_id is None,
            !unbound ==> final(self).has_output == old(self).has_output && final(self).output_global_id == old(self).output_global_id,
            final(self).state == old(self).state,
            final(self).protocol == old(self).protocol,
            final(self).pending_frame == old(self).pending_frame,
    {
        match self.output_global_id {
            Some(known) => if known == global_id {
                self.has_output = false;
                self.output_global_id = None;
                true
            } else {
                false
            },
            None => false,
        }
    }

    /// Takes `event` and tells what is to be done.
    pub fn event(&mut self, event: Event) -> (action: Action)
        ensures
            (final(self).state, action) == spec_next(old(self).state, old(self).has_output, event),
            final(self).has_output == old(self).has_output,
            final(self).output_global_id == old(self).output_global_id,
            final(self).protocol == old(self).protocol,
            final(self).pending_frame == old(self).pending_frame,
    {
        match (self.state, event) {
            (State::Idle, Event::Wake) => if self.has_output {
                self.state = State::Requested;
                Action::Request
            } else {
                Action::Dispatch
            },
            (State::Requested, Event::Delivered) => {
                self.state = State::Ready;
                Action::Process
            },
            (State::Requested, Event::Cancel { permanent }) => {
                self.state = State::Cancelled;
                if permanent {
                    Action::Abort
                } else {
                    Action::Release
                }
            },
            (State::Ready, Event::Done) => {
                self.state = State::Idle;
                Action::Sleep(DELAY_SUCCESS_MS)
            },
            (State::Cancelled, Event::Done) => {
                self.state = State::Idle;
                Action::Sleep(DELAY_FAILURE_MS)
            },
            _ => Action::Dispatch,
        }
    }

    /// Starts to put a frame together from what the compositor says of it.
    pub fn on_frame(&mut self, width: u32, height: u32, num_objects: u32, format: u32)
        ensures
            final(self).pending_frame matches Some(frame) && frame.width == width && frame.height
                == height && frame.num_objects == num_objects && frame.format == format
                && frame.fds@.len() == num_objects && frame.sizes@.len() == num_objects,
            final(self).state == old(self).state,
            final(self).has_output == old(self).has_output,
            final(self).output_global_id == old(self).output_global_id,
            final(self).protocol == old(self).protocol,
    {
        self.pending_frame = Some(Object::new(width, height, num_objects, format));
    }

    /// Whether a frame of the given size and format needs a buffer other
    /// than the one that the last frame was copied into.
    pub fn needs_new_buffer(&self, width: u32, height: u32, format: u32) -> (changed: bool)
        ensures
            changed == (self.pending_frame matches Some(frame) && (frame.width != width
                || frame.height != height || frame.format != format)),
    {
        match &self.pending_frame {
            Some(frame) => frame.width != width || frame.height != height || frame.format
                != format,
            None => false,
        }
    }

    /// Records a memory object of the frame that is being put together.
    /// Without such a frame, or with an index that it has no place for,
    /// nothing is recorded.
    pub fn on_object(&mut self, index: u32, fd: i32, size: u32) -> (recorded: bool)
        ensures
            recorded == (old(self).pending_frame matches Some(frame) && index < frame.fds@.len()
                && index < frame.sizes@.len()),
            recorded ==> final(self).pending_frame is Some,
            recorded ==> final(self).pending_frame->0.fds@ == old(self).pending_frame->0.fds@.update(
                index as int,
                fd,
            ),
            recorded ==> final(self).pending_frame->0.sizes@ == old(self).pending_frame->0.sizes@.update(index as int, size),
            recorded ==> final(self).pending_frame->0.width == old(self).pending_frame->0.width,
            recorded ==> final(self).pending_frame->0.height == old(self).pending_frame->0.height,
            recorded ==> final(self).pending_frame->0.format == old(self).pending_frame->0.format,
            recorded ==> final(self).pending_frame->0.num_objects == old(self).pending_frame->0.num_objects,
            !recorded ==> final(self).pending_frame == old(self).pending_frame,
            final(self).state == old(self).state,
            final(self).has_output == old(self).has_output,
            final(self).output_global_id == old(self).output_global_id,
            final(self).protocol == old(self).protocol,
    {
        match self.pending_frame.take() {
            Some(mut frame) => {
                if (index as usize) < frame.fds.len() && (index as usize) < frame.sizes.len() {
                    frame.set_object(index, fd, size);
                    self.pending_frame = Some(frame);
                    true
                } else {
                    self.pending_frame = Some(frame);
                    false
                }
            },
            None => false,
        }
    }
}

} // verus!
