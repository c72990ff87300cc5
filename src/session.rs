//! Decisions of the playback session: the transport state machine, the
//! decode-pull steps and the pacing of each rendered frame.
//!
//! The demuxer, decoders, converters and clocks live with the caller, which
//! reports what they produced as events and carries out the returned actions.
use vstd::prelude::*;
use crate::clock::{MediaTime, StreamClock, TimeBase, delay_of, time_of_pts};

verus! {

/// A transport command; a seek target is in microseconds of media time.
#[derive(Clone, Copy, Debug, PartialEq, Eq)]
pub enum ControlMessage {
    Play,
    Pause,
    Seek(i64),
    Stop,
}

/// Size of the picture and length of the source, the latter in microseconds.
#[derive(Clone, Copy, Debug, PartialEq, Eq)]
pub struct Meta {
    pub width: usize,
    pub height: usize,
    pub duration: i64,
}

/// What the decoder reported of the most recent decoded picture.
#[derive(Clone, Copy, Debug, PartialEq, Eq)]
pub struct FrameInfo {
    pub format: i32,
    pub width: usize,
    pub height: usize,
    pub pts: Option<i64>,
}

/// What the loop does once a command (or its absence) has been applied.
#[derive(Clone, Copy, Debug, PartialEq, Eq)]
pub enum CommandAction {
    /// Pull no frame; wait for the next command.
    AwaitCommand,
    /// Pull, pace and render the next frame.
    PullFrame,
    /// Reposition the input at or before the target (microseconds), flush the
    /// video and audio decoders, then pull the next frame.
    SeekAndPull(i64),
    /// Leave the loop and report the stop.
    Stop,
}

/// An outcome of the last decode-pull operation.
#[derive(Clone, Copy, Debug, PartialEq, Eq)]
pub enum PullEvent {
    /// The video decoder handed out a picture.
    VideoFrame(FrameInfo),
    /// The video decoder has no picture ready.
    NoVideoFrame,
    /// The demuxer produced a packet of the given stream.
    Packet(usize),
    /// The demuxer is at the end of the input.
    EndOfInput,
    /// A decoder or the demuxer failed.
    Failed,
}

/// The next decode-pull operation.
#[derive(Clone, Copy, Debug, PartialEq, Eq)]
pub enum PullAction {
    /// Convert the picture just received to RGBA and hand it out; first build
    /// a new converter when `rebuild` is set.
    ConvertFrame(bool),
    /// Read the next packet from the demuxer.
    ReadPacket,
    /// Send the packet to the video decoder, then ask it for a picture.
    FeedVideo,
    /// Send the packet to the audio decoder and drain it, forwarding each
    /// audio frame to the sink when the flag is set; then ask the video
    /// decoder for a picture.
    FeedAudio(bool),
    /// Drop the packet and ask the video decoder for a picture.
    SkipPacket,
    /// No further frame can be had: playback ends.
    Exhausted,
}

/// How to show one frame.
#[derive(Clone, Copy, Debug, PartialEq, Eq)]
pub struct FramePlan {
    /// Microseconds to wait before rendering; `None` to render at once.
    pub delay: Option<u128>,
    /// Exact media time of the frame, for the progress report.
    pub progress: MediaTime,
}

/// State of one playback session.
#[derive(Clone, Copy, Debug, PartialEq, Eq)]
pub struct PlayServer {
    pub video_stream_index: usize,
    pub audio_stream_index: usize,
    pub time_base: TimeBase,
    pub duration: i64,
    pub converter_format: Option<i32>,
    pub latest_frame: Option<FrameInfo>,
    pub stream_clock: Option<StreamClock>,
    pub playing: bool,
    pub stopped: bool,
}

/// State and action after applying `msg` (`None`: no command was waiting).
/// A stopped session is final: it answers everything with a stop.
pub open spec fn command_step(s: PlayServer, msg: Option<ControlMessage>) -> (PlayServer, CommandAction) {
    if s.stopped {
        (s, CommandAction::Stop)
    } else {
        match msg {
        None => (s, CommandAction::PullFrame),
        Some(ControlMessage::Play) => (PlayServer { playing: true, ..s }, CommandAction::PullFrame),
        Some(ControlMessage::Pause) => (
            PlayServer { playing: false, stream_clock: None, ..s },
            CommandAction::AwaitCommand,
        ),
        Some(ControlMessage::Seek(t)) => (
            PlayServer { stream_clock: None, ..s },
            CommandAction::SeekAndPull(t),
        ),
        Some(ControlMessage::Stop) => (PlayServer { stopped: true, ..s }, CommandAction::Stop),
        }
    }
}

/// State and action after the decode-pull event `ev`.
pub open spec fn pull_step(s: PlayServer, ev: PullEvent, play_audio: bool) -> (PlayServer, PullAction) {
    match ev {
        PullEvent::VideoFrame(f) => (
            PlayServer { converter_format: Some(f.format), latest_frame: Some(f), ..s },
            PullAction::ConvertFrame(s.converter_format != Some(f.format)),
        ),
        PullEvent::NoVideoFrame => (s, PullAction::ReadPacket),
        PullEvent::Packet(i) => if i == s.video_stream_index {
            (s, PullAction::FeedVideo)
        } else if i == s.audio_stream_index {
            (s, PullAction::FeedAudio(play_audio))
        } else {
            (s, PullAction::SkipPacket)
        },
        PullEvent::EndOfInput => (s, PullAction::Exhausted),
        PullEvent::Failed => (s, PullAction::Exhausted),
    }
}

/// The clock that paces a frame stamped `pts` at instant `now`: the current
/// one, or a new one anchored at that frame.
pub open spec fn pacing_clock(s: PlayServer, pts: Option<i64>, now: u64) -> StreamClock {
    match s.stream_clock {
        Some(c) => c,
        None => StreamClock {
            time_base: s.time_base,
            start_instant: now,
            start_pts: match pts {
                Some(p) => p,
                None => 0,
            },
        },
    }
}

/// The plan for a frame stamped `pts` shown with clock `c` at instant `now`.
pub open spec fn plan_of(c: StreamClock, pts: Option<i64>, now: u64) -> FramePlan {
    FramePlan {
        delay: match delay_of(c, pts, now) {
            None => None,
            Some(d) => Some(d as u128),
        },
        progress: time_of_pts(
            c.time_base,
            match pts {
                Some(p) => p,
                None => 0,
            },
        ),
    }
}

impl PlayServer {
    pub open spec fn wf(&self) -> bool {
        &&& self.time_base.wf()
        &&& match self.stream_clock {
            Some(c) => c.time_base == self.time_base,
            None => true,
        }
    }

    /// A session over an opened input, before its first frame is decoded.
    pub fn new(video_stream_index: usize, audio_stream_index: usize, time_base: TimeBase, duration: i64) -> (r: Self)
        requires
            time_base.wf(),
        ensures
            r.wf(),
            r == (PlayServer {
                video_stream_index,
                audio_stream_index,
                time_base,
                duration,
                converter_format: None,
                latest_frame: None,
                stream_clock: None,
                playing: false,
                stopped: false,
            }),
    {
        PlayServer {
            video_stream_index,
            audio_stream_index,
            time_base,
            duration,
            converter_format: None,
            latest_frame: None,
            stream_clock: None,
            playing: false,
            stopped: false,
        }
    }

    /// Whether the loop polls for commands without blocking (while playing)
    /// rather than blocking until one arrives.
    pub fn polls_commands(&self) -> (r: bool)
        ensures
            r == self.playing,
    {
        self.playing
    }

    /// Applies one command, or its absence, to the transport state; once
    /// stopped, every command is answered with a stop and changes nothing.
    pub fn apply_command(&mut self, msg: Option<ControlMessage>) -> (r: CommandAction)
        requires
            old(self).wf(),
        ensures
            final(self).wf(),
            (*final(self), r) == command_step(*old(self), msg),
    {
        if self.stopped {
            return CommandAction::Stop;
        }
        match msg {
            None => CommandAction::PullFrame,
            Some(ControlMessage::Play) => {
                self.playing = true;
                CommandAction::PullFrame
            },
            Some(ControlMessage::Pause) => {
                self.playing = false;
                self.stream_clock = None;
                CommandAction::AwaitCommand
            },
            Some(ControlMessage::Seek(t)) => {
                self.stream_clock = None;
                CommandAction::SeekAndPull(t)
            },
            Some(ControlMessage::Stop) => {
                self.stopped = true;
                CommandAction::Stop
            },
        }
    }

    /// Decides the next decode-pull operation from the outcome of the last.
    pub fn next_frame(&mut self, ev: PullEvent, play_audio: bool) -> (r: PullAction)
        requires
            old(self).wf(),
        ensures
            final(self).wf(),
            (*final(self), r) == pull_step(*old(self), ev, play_audio),
    {
        match ev {
            PullEvent::VideoFrame(f) => {
                let rebuild = match self.converter_format {
                    Some(g) => g != f.format,
                    None => true,
                };
                self.converter_format = Some(f.format);
                self.latest_frame = Some(f);
                PullAction::ConvertFrame(rebuild)
            },
            PullEvent::NoVideoFrame => PullAction::ReadPacket,
            PullEvent::Packet(i) => {
                if i == self.video_stream_index {
                    PullAction::FeedVideo
                } else if i == self.audio_stream_index {
                    PullAction::FeedAudio(play_audio)
                } else {
                    PullAction::SkipPacket
                }
            },
            PullEvent::EndOfInput => PullAction::Exhausted,
            PullEvent::Failed => PullAction::Exhausted,
        }
    }

    /// Paces a frame stamped `pts` pulled at instant `now`: anchors a new
    /// clock at it when none is anchored, and gives the wait before rendering
    /// and the progress value.
    pub fn pace_frame(&mut self, pts: Option<i64>, now: u64) -> (r: FramePlan)
        requires
            old(self).wf(),
        ensures
            final(self).wf(),
            *final(self) == (PlayServer { stream_clock: Some(pacing_clock(*old(self), pts, now)), ..*old(self) }),
            r == plan_of(pacing_clock(*old(self), pts, now), pts, now),
    {
        let start = match pts {
            Some(p) => p,
            None => 0,
        };
        let clock = match self.stream_clock {
            Some(c) => c,
            None => {
                let c = StreamClock::new(self.time_base, start, now);
                self.stream_clock = Some(c);
                c
            },
        };
        let delay = clock.convert_pts_to_instant(pts, now);
        let progress = clock.convert_pts_to_time(start);
        FramePlan { delay, progress }
    }

    /// Width of the most recent decoded picture.
    pub fn get_width(&self) -> (r: Option<usize>)
        ensures
            r == (match self.latest_frame {
                Some(f) => Some(f.width),
                None => None,
            }),
    {
        match self.latest_frame {
            Some(f) => Some(f.width),
            None => None,
        }
    }

    /// Height of the most recent decoded picture.
    pub fn get_height(&self) -> (r: Option<usize>)
        ensures
            r == (match self.latest_frame {
                Some(f) => Some(f.height),
                None => None,
            }),
    {
        match self.latest_frame {
            Some(f) => Some(f.height),
            None => None,
        }
    }

    /// Length of the source in microseconds.
    pub fn get_duration(&self) -> (r: i64)
        ensures
            r == self.duration,
    {
        self.duration
    }

    /// The metadata reported once the first picture is decoded.
    pub fn meta(&self) -> (r: Option<Meta>)
        ensures
            r == (match self.latest_frame {
                Some(f) => Some(Meta { width: f.width, height: f.height, duration: self.duration }),
                None => None,
            }),
    {
        match self.latest_frame {
            Some(f) => Some(Meta { width: f.width, height: f.height, duration: self.duration }),
            None => None,
        }
    }
}

/// In a session not yet stopped, a pause followed at once by a play resumes
/// without a jump: the pause
/// waits for the next command, the play pulls a frame, and that frame
/// re-anchors the clock at its own timestamp and the current instant, so it is
/// rendered at once with its own media time as progress.
pub proof fn lemma_pause_play_reanchors(s: PlayServer, pts: Option<i64>, now: u64)
    requires
        s.wf(),
        !s.stopped,
    ensures
        ({
            let (s1, a1) = command_step(s, Some(ControlMessage::Pause));
            let (s2, a2) = command_step(s1, Some(ControlMessage::Play));
            let c = pacing_clock(s2, pts, now);
            &&& a1 == CommandAction::AwaitCommand
            &&& a2 == CommandAction::PullFrame
            &&& s2.playing
            &&& c.start_instant == now
            &&& c.start_pts == (match pts {
                Some(p) => p,
                None => 0,
            })
            &&& plan_of(c, pts, now).delay.is_none()
            &&& plan_of(c, pts, now).progress == time_of_pts(s.time_base, c.start_pts)
        }),
{
    let (s1, a1) = command_step(s, Some(ControlMessage::Pause));
    let (s2, a2) = command_step(s1, Some(ControlMessage::Play));
    let c = pacing_clock(s2, pts, now);
    assert(crate::clock::micros_of_pts(s.time_base, 0) == 0);
    if let Some(p) = pts {
        assert(p - c.start_pts == 0);
        assert(crate::clock::deadline_of(c, p as int) == now);
    }
}

/// A seek in a session not yet stopped, playing or paused, asks for the input to be repositioned and both
/// decoders flushed before any further frame is pulled, and drops the clock so
/// that the first frame after the seek anchors a new one; nothing else changes.
pub proof fn lemma_seek_flushes_first(s: PlayServer, t: i64, pts: Option<i64>, now: u64)
    requires
        s.wf(),
        !s.stopped,
    ensures
        ({
            let (s1, a) = command_step(s, Some(ControlMessage::Seek(t)));
            &&& a == CommandAction::SeekAndPull(t)
            &&& s1 == (PlayServer { stream_clock: None, ..s })
            &&& pacing_clock(s1, pts, now).start_instant == now
            &&& pacing_clock(s1, pts, now).start_pts == (match pts {
                Some(p) => p,
                None => 0,
            })
        }),
{
}

/// A stopped session is final: whatever command follows, it stays as it is
/// and answers with a stop.
pub proof fn lemma_stop_is_final(s: PlayServer, msg: Option<ControlMessage>)
    requires
        s.stopped,
    ensures
        command_step(s, msg) == (s, CommandAction::Stop),
{
}

} // verus!
