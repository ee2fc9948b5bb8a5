//! Playback sessions and the controller that decides which session is current.
//!
//! Playback positions and durations are seconds held as IEEE-754 binary64 bit
//! patterns (`f64::to_bits`). The controller only validates, copies and
//! compares them; the engines that produce them run outside this module.
use crate::media::{clone_opt_string, clone_string, same_media, Media, MediaType};
use crate::text::str_eq;
use vstd::prelude::*;

verus! {

/// How a prepared media file is played.
#[derive(Debug)]
pub enum PlaybackPlan {
    BrowserVideo { path: String, video_codec: String },
    ExternalVideo { path: String },
    Audio { path: String },
}

#[derive(Clone, Copy, Debug, PartialEq, Eq, Structural)]
pub enum PlaybackStatus {
    Preparing,
    Ready,
    Playing,
    Paused,
    Buffering,
    Ended,
    Stopped,
    Failed,
    External,
}

impl Clone for PlaybackPlan {
    fn clone(&self) -> (r: Self)
        ensures
            r == *self,
    {
        match self {
            PlaybackPlan::BrowserVideo { path, video_codec } => PlaybackPlan::BrowserVideo {
                path: path.clone(),
                video_codec: video_codec.clone(),
            },
            PlaybackPlan::ExternalVideo { path } => PlaybackPlan::ExternalVideo {
                path: path.clone(),
            },
            PlaybackPlan::Audio { path } => PlaybackPlan::Audio { path: path.clone() },
        }
    }
}

/// A binary64 bit pattern that encodes a finite, non-negative number
/// (`-0.0` included, as `-0.0 < 0.0` is false).
pub open spec fn valid_time_bits(bits: u64) -> bool {
    bits < 0x7ff0_0000_0000_0000u64 || bits == 0x8000_0000_0000_0000u64
}

pub open spec fn opt_view(o: Option<String>) -> Option<Seq<char>> {
    match o {
        Some(s) => Some(s@),
        None => None,
    }
}

/// The state of the current playback request.
#[derive(Debug)]
pub struct PlaybackSession {
    pub id: u64,
    pub media: Media,
    pub playlist_entry_id: Option<String>,
    pub plan: Option<PlaybackPlan>,
    pub status: PlaybackStatus,
    /// Seconds, as binary64 bits.
    pub position: u64,
    /// Seconds, as binary64 bits.
    pub duration: u64,
    pub error: Option<String>,
    pub browser_sequence: u64,
    pub browser_owner: Option<String>,
}

/// Two sessions hold the same data.
pub open spec fn same_session(a: PlaybackSession, b: PlaybackSession) -> bool {
    &&& a.id == b.id
    &&& same_media(a.media, b.media)
    &&& a.playlist_entry_id == b.playlist_entry_id
    &&& a.plan == b.plan
    &&& a.status == b.status
    &&& a.position == b.position
    &&& a.duration == b.duration
    &&& a.error == b.error
    &&& a.browser_sequence == b.browser_sequence
    &&& a.browser_owner == b.browser_owner
}

pub open spec fn same_opt_session(a: Option<PlaybackSession>, b: Option<PlaybackSession>) -> bool {
    match (a, b) {
        (Some(x), Some(y)) => same_session(x, y),
        (None, None) => true,
        _ => false,
    }
}

impl PlaybackSession {
    pub fn duplicate(&self) -> (r: Self)
        ensures
            same_session(r, *self),
    {
        PlaybackSession {
            id: self.id,
            media: self.media.clone(),
            playlist_entry_id: clone_opt_string(&self.playlist_entry_id),
            plan: match &self.plan {
                Some(p) => Some(p.clone()),
                None => None,
            },
            status: self.status,
            position: self.position,
            duration: self.duration,
            error: clone_opt_string(&self.error),
            browser_sequence: self.browser_sequence,
            browser_owner: clone_opt_string(&self.browser_owner),
        }
    }
}

/// What the user interface is shown: the controller's revision and session.
#[derive(Debug)]
pub struct PlaybackSnapshot {
    pub revision: u64,
    pub session: Option<PlaybackSession>,
}

/// A progress report from the embedded browser player.
#[derive(Debug)]
pub struct BrowserPlaybackReport {
    pub session_id: u64,
    pub sequence: u64,
    pub owner: String,
    /// Seconds, as binary64 bits.
    pub position: u64,
    /// Seconds, as binary64 bits.
    pub duration: u64,
    pub status: PlaybackStatus,
}

pub open spec fn browser_reportable(s: PlaybackStatus) -> bool {
    s == PlaybackStatus::Playing || s == PlaybackStatus::Paused || s == PlaybackStatus::Buffering
        || s == PlaybackStatus::Ended
}

impl BrowserPlaybackReport {
    pub open spec fn validate_spec(self) -> Result<(), Seq<char>> {
        if !valid_time_bits(self.position) || !valid_time_bits(self.duration) {
            Err("Invalid playback time"@)
        } else if !browser_reportable(self.status) {
            Err("Invalid browser playback status"@)
        } else {
            Ok(())
        }
    }

    pub fn validate(&self) -> (r: Result<(), String>)
        ensures
            match (r, self.validate_spec()) {
                (Ok(()), Ok(())) => true,
                (Err(e), Err(m)) => e@ == m,
                _ => false,
            },
    {
        proof {
            reveal_strlit("Invalid playback time");
            reveal_strlit("Invalid browser playback status");
        }
        if !(self.position < 0x7ff0_0000_0000_0000u64 || self.position == 0x8000_0000_0000_0000u64)
            || !(self.duration < 0x7ff0_0000_0000_0000u64 || self.duration
            == 0x8000_0000_0000_0000u64) {
            return Err(String::from_str("Invalid playback time"));
        }
        match self.status {
            PlaybackStatus::Playing
            | PlaybackStatus::Paused
            | PlaybackStatus::Buffering
            | PlaybackStatus::Ended => Ok(()),
            _ => Err(String::from_str("Invalid browser playback status")),
        }
    }
}

/// The state that the audio engine last published for a session.
#[derive(Debug)]
pub struct AudioSnapshot {
    pub session_id: u64,
    pub status: PlaybackStatus,
    /// Seconds, as binary64 bits.
    pub position: u64,
    /// Seconds, as binary64 bits.
    pub duration: u64,
    pub error: Option<String>,
}

/// Decides which playback request is current and what the player shows.
///
/// Every request is numbered by `generation`; work that finishes for an
/// older number is ignored. `revision` grows with every visible change.
#[derive(Debug)]
pub struct PlaybackController {
    revision: u64,
    generation: u64,
    pub session: Option<PlaybackSession>,
}

pub open spec fn is_browser_plan(p: Option<PlaybackPlan>) -> bool {
    p matches Some(PlaybackPlan::BrowserVideo { .. })
}

pub open spec fn is_audio_plan(p: Option<PlaybackPlan>) -> bool {
    p matches Some(PlaybackPlan::Audio { .. })
}

pub open spec fn is_finished(s: PlaybackStatus) -> bool {
    s == PlaybackStatus::Failed || s == PlaybackStatus::Stopped
}

/// The status a session takes when its plan is activated.
pub open spec fn activation_status(plan: PlaybackPlan) -> PlaybackStatus {
    match plan {
        PlaybackPlan::Audio { .. } => PlaybackStatus::Preparing,
        PlaybackPlan::BrowserVideo { .. } => PlaybackStatus::Ready,
        PlaybackPlan::ExternalVideo { .. } => PlaybackStatus::External,
    }
}

/// Whether a browser report is taken over by the current session.
pub open spec fn accepts_report(session: PlaybackSession, report: BrowserPlaybackReport) -> bool {
    &&& session.id == report.session_id
    &&& opt_view(session.browser_owner) == Some(report.owner@)
    &&& report.sequence > session.browser_sequence
    &&& is_browser_plan(session.plan)
    &&& !is_finished(session.status)
}

/// Whether an audio engine snapshot changes the current session.
pub open spec fn audio_changes(session: PlaybackSession, audio: AudioSnapshot) -> bool {
    &&& is_audio_plan(session.plan)
    &&& !is_finished(session.status)
    &&& audio.session_id == session.id
    &&& (session.status != audio.status || session.position != audio.position || session.duration
        != audio.duration || opt_view(session.error) != opt_view(audio.error))
}

impl PlaybackController {
    pub closed spec fn revision_spec(self) -> u64 {
        self.revision
    }

    pub closed spec fn generation_spec(self) -> u64 {
        self.generation
    }

    pub closed spec fn current(self) -> Option<PlaybackSession> {
        self.session
    }

    /// Enough room to count the visible changes of one operation.
    pub open spec fn has_room(self) -> bool {
        self.revision_spec() < u64::MAX - 1
    }

    pub open spec fn requested(self, id: u64) -> bool {
        self.generation_spec() == id
    }

    pub open spec fn matches_spec(self, id: u64) -> bool {
        &&& self.requested(id)
        &&& self.current() matches Some(s)
        &&& s.id == id
    }

    /// Nothing about the controller changed.
    pub open spec fn unchanged(self, other: Self) -> bool {
        &&& self.revision_spec() == other.revision_spec()
        &&& self.generation_spec() == other.generation_spec()
        &&& same_opt_session(self.current(), other.current())
    }

    pub fn new() -> (r: Self)
        ensures
            r.revision_spec() == 0,
            r.generation_spec() == 0,
            r.current() is None,
    {
        PlaybackController { revision: 0, generation: 0, session: None }
    }

    pub fn revision(&self) -> (r: u64)
        ensures
            r == self.revision_spec(),
    {
        self.revision
    }

    /// Whether the revision counter has room for one more operation; every
    /// operation that changes the controller needs it.
    pub fn has_room_for_change(&self) -> (r: bool)
        ensures
            r == self.has_room(),
    {
        self.revision < u64::MAX - 1
    }

    pub fn is_requested(&self, id: u64) -> (r: bool)
        ensures
            r == self.requested(id),
    {
        self.generation == id
    }

    pub fn matches(&self, id: u64) -> (r: bool)
        ensures
            r == self.matches_spec(id),
    {
        self.generation == id && match &self.session {
            Some(s) => s.id == id,
            None => false,
        }
    }

    /// Numbers a new playback request; every older request stops being current.
    pub fn reserve(&mut self) -> (r: Result<u64, String>)
        requires
            old(self).has_room(),
        ensures
            match r {
                Ok(id) => {
                    &&& old(self).generation_spec() < u64::MAX
                    &&& id == old(self).generation_spec() + 1
                    &&& final(self).generation_spec() == id
                    &&& final(self).revision_spec() == old(self).revision_spec() + 1
                    &&& same_opt_session(final(self).current(), old(self).current())
                },
                Err(e) => {
                    &&& old(self).generation_spec() == u64::MAX
                    &&& e@ == "Playback session overflow"@
                    &&& final(self).unchanged(*old(self))
                },
            },
    {
        proof {
            reveal_strlit("Playback session overflow");
        }
        if self.generation == u64::MAX {
            return Err(String::from_str("Playback session overflow"));
        }
        self.generation = self.generation + 1;
        self.revision = self.revision + 1;
        Ok(self.generation)
    }

    /// Starts the session of a reserved request, if it is still the current one.
    /// The caller stops the previous engines first.
    pub fn begin_reserved(&mut self, id: u64, media: Media, entry_id: Option<String>) -> (r: bool)
        requires
            old(self).has_room(),
        ensures
            r == old(self).requested(id),
            r ==> {
                &&& final(self).generation_spec() == old(self).generation_spec()
                &&& final(self).revision_spec() == old(self).revision_spec() + 1
                &&& final(self).current() matches Some(s)
                &&& s.id == id
                &&& same_media(s.media, media)
                &&& s.playlist_entry_id == entry_id
                &&& s.plan is None
                &&& s.status == PlaybackStatus::Preparing
                &&& s.position == 0
                &&& s.duration == 0
                &&& s.error is None
                &&& s.browser_sequence == 0
                &&& s.browser_owner is None
            },
            !r ==> final(self).unchanged(*old(self)),
    {
        if self.generation != id {
            return false;
        }
        self.session = Some(
            PlaybackSession {
                id,
                media,
                playlist_entry_id: entry_id,
                plan: None,
                status: PlaybackStatus::Preparing,
                position: 0,
                duration: 0,
                error: None,
                browser_sequence: 0,
                browser_owner: None,
            },
        );
        self.revision = self.revision + 1;
        true
    }

    /// Reserves a request and starts its session at once.
    pub fn begin(&mut self, media: Media, entry_id: Option<String>) -> (r: Result<u64, String>)
        requires
            old(self).revision_spec() < u64::MAX - 2,
        ensures
            match r {
                Ok(id) => {
                    &&& id == old(self).generation_spec() + 1
                    &&& final(self).matches_spec(id)
                    &&& final(self).revision_spec() == old(self).revision_spec() + 2
                    &&& final(self).current() matches Some(s)
                    &&& s.status == PlaybackStatus::Preparing
                    &&& same_media(s.media, media)
                    &&& s.playlist_entry_id == entry_id
                    &&& s.plan is None
                },
                Err(e) => {
                    &&& old(self).generation_spec() == u64::MAX
                    &&& e@ == "Playback session overflow"@
                    &&& final(self).unchanged(*old(self))
                },
            },
    {
        let id = self.reserve()?;
        let started = self.begin_reserved(id, media, entry_id);
        assert(started);
        Ok(id)
    }

    /// Ends the current session without touching the request counter.
    /// The caller stops the engines first.
    pub fn clear_session(&mut self)
        requires
            old(self).has_room(),
        ensures
            final(self).current() is None,
            final(self).generation_spec() == old(self).generation_spec(),
            final(self).revision_spec() == old(self).revision_spec() + 1,
    {
        self.session = None;
        self.revision = self.revision + 1;
    }

    /// Stops playback: no earlier request stays current and no session is shown.
    pub fn stop(&mut self) -> (r: Result<(), String>)
        requires
            old(self).revision_spec() < u64::MAX - 2,
        ensures
            match r {
                Ok(()) => {
                    &&& final(self).current() is None
                    &&& final(self).generation_spec() == old(self).generation_spec() + 1
                    &&& final(self).revision_spec() == old(self).revision_spec() + 2
                },
                Err(e) => {
                    &&& old(self).generation_spec() == u64::MAX
                    &&& e@ == "Playback session overflow"@
                    &&& final(self).unchanged(*old(self))
                },
            },
    {
        self.reserve()?;
        self.clear_session();
        Ok(())
    }

    /// Applies a prepared plan to the session, if the request is still current.
    /// The caller starts the engine that the plan needs before this call.
    pub fn activate(&mut self, id: u64, media: Media, plan: PlaybackPlan) -> (r: bool)
        requires
            old(self).has_room(),
        ensures
            r == old(self).matches_spec(id),
            r ==> {
                &&& final(self).generation_spec() == old(self).generation_spec()
                &&& final(self).revision_spec() == old(self).revision_spec() + 1
                &&& final(self).current() matches Some(s)
                &&& old(self).current() matches Some(o)
                &&& s.id == o.id
                &&& same_media(s.media, media)
                &&& s.plan == Some(plan)
                &&& s.status == activation_status(plan)
                &&& s.playlist_entry_id == o.playlist_entry_id
                &&& s.position == o.position
                &&& s.duration == o.duration
                &&& s.error == o.error
                &&& s.browser_sequence == o.browser_sequence
                &&& s.browser_owner == o.browser_owner
            },
            !r ==> final(self).unchanged(*old(self)),
    {
        if !self.matches(id) {
            return false;
        }
        let status = match &plan {
            PlaybackPlan::Audio { .. } => PlaybackStatus::Preparing,
            PlaybackPlan::BrowserVideo { .. } => PlaybackStatus::Ready,
            PlaybackPlan::ExternalVideo { .. } => PlaybackStatus::External,
        };
        match self.session.take() {
            Some(mut session) => {
                session.media = media;
                session.plan = Some(plan);
                session.status = status;
                self.session = Some(session);
            },
            None => {},
        }
        self.revision = self.revision + 1;
        true
    }

    /// Marks the current request as failed with the given message.
    /// The caller stops the engines first and adds any error of doing so.
    pub fn fail(&mut self, id: u64, message: String)
        requires
            old(self).has_room(),
        ensures
            old(self).matches_spec(id) ==> {
                &&& final(self).generation_spec() == old(self).generation_spec()
                &&& final(self).revision_spec() == old(self).revision_spec() + 1
                &&& final(self).current() matches Some(s)
                &&& old(self).current() matches Some(o)
                &&& s.status == PlaybackStatus::Failed
                &&& s.error == Some(message)
                &&& s.id == o.id
                &&& same_media(s.media, o.media)
                &&& s.plan == o.plan
                &&& s.playlist_entry_id == o.playlist_entry_id
                &&& s.position == o.position
                &&& s.duration == o.duration
                &&& s.browser_sequence == o.browser_sequence
                &&& s.browser_owner == o.browser_owner
            },
            !old(self).matches_spec(id) ==> final(self).unchanged(*old(self)),
    {
        if self.matches(id) {
            match self.session.take() {
                Some(mut session) => {
                    session.status = PlaybackStatus::Failed;
                    session.error = Some(message);
                    self.session = Some(session);
                },
                None => {},
            }
            self.revision = self.revision + 1;
        }
    }

    /// Takes over a browser progress report when it comes from the attached
    /// player, is newer than the last one taken and the session still plays
    /// in the browser; other reports are ignored.
    pub fn report_browser(&mut self, report: BrowserPlaybackReport) -> (r: Result<(), String>)
        requires
            old(self).has_room(),
        ensures
            match (r, report.validate_spec()) {
                (Err(e), Err(m)) => e@ == m && final(self).unchanged(*old(self)),
                (Ok(()), Ok(())) => {
                    match old(self).current() {
                        Some(o) if accepts_report(o, report) => {
                            &&& final(self).generation_spec() == old(self).generation_spec()
                            &&& final(self).revision_spec() == old(self).revision_spec() + 1
                            &&& final(self).current() matches Some(s)
                            &&& s.browser_sequence == report.sequence
                            &&& s.position == report.position
                            &&& s.duration == report.duration
                            &&& s.status == report.status
                            &&& s.id == o.id
                            &&& same_media(s.media, o.media)
                            &&& s.plan == o.plan
                            &&& s.playlist_entry_id == o.playlist_entry_id
                            &&& s.error == o.error
                            &&& s.browser_owner == o.browser_owner
                        },
                        _ => final(self).unchanged(*old(self)),
                    }
                },
                _ => false,
            },
    {
        report.validate()?;
        let accepted = match &self.session {
            Some(s) => {
                let owner_ok = match &s.browser_owner {
                    Some(o) => str_eq(o.as_str(), report.owner.as_str()),
                    None => false,
                };
                let browser = match &s.plan {
                    Some(PlaybackPlan::BrowserVideo { .. }) => true,
                    _ => false,
                };
                s.id == report.session_id && owner_ok && report.sequence > s.browser_sequence
                    && browser && s.status != PlaybackStatus::Failed && s.status
                    != PlaybackStatus::Stopped
            },
            None => false,
        };
        if accepted {
            match self.session.take() {
                Some(mut session) => {
                    session.browser_sequence = report.sequence;
                    session.position = report.position;
                    session.duration = report.duration;
                    session.status = report.status;
                    self.session = Some(session);
                },
                None => {},
            }
            self.revision = self.revision + 1;
        }
        Ok(())
    }

    /// Binds the browser player `owner` to session `id` and restarts its
    /// report numbering.
    pub fn attach_browser(&mut self, id: u64, owner: String) -> (r: Result<PlaybackSnapshot, String>)
        requires
            old(self).has_room(),
        ensures
            match r {
                Ok(snap) => {
                    &&& old(self).current() matches Some(o)
                    &&& o.id == id
                    &&& is_browser_plan(o.plan)
                    &&& final(self).generation_spec() == old(self).generation_spec()
                    &&& final(self).revision_spec() == old(self).revision_spec() + 1
                    &&& final(self).current() matches Some(s)
                    &&& s.browser_owner == Some(owner)
                    &&& s.browser_sequence == 0
                    &&& s.id == o.id
                    &&& same_media(s.media, o.media)
                    &&& s.plan == o.plan
                    &&& s.status == o.status
                    &&& s.playlist_entry_id == o.playlist_entry_id
                    &&& s.position == o.position
                    &&& s.duration == o.duration
                    &&& s.error == o.error
                    &&& snap.revision == final(self).revision_spec()
                    &&& same_opt_session(snap.session, final(self).current())
                },
                Err(e) => {
                    &&& final(self).unchanged(*old(self))
                    &&& match old(self).current() {
                        Some(o) if o.id == id => !is_browser_plan(o.plan) && e@
                            == "Not a browser playback session"@,
                        _ => e@ == "Playback session changed"@,
                    }
                },
            },
    {
        proof {
            reveal_strlit("Playback session changed");
            reveal_strlit("Not a browser playback session");
        }
        let (same, browser) = match &self.session {
            Some(s) => (s.id == id, match &s.plan {
                Some(PlaybackPlan::BrowserVideo { .. }) => true,
                _ => false,
            }),
            None => (false, false),
        };
        if !same {
            return Err(String::from_str("Playback session changed"));
        }
        if !browser {
            return Err(String::from_str("Not a browser playback session"));
        }
        match self.session.take() {
            Some(mut session) => {
                session.browser_owner = Some(owner);
                session.browser_sequence = 0;
                self.session = Some(session);
            },
            None => {},
        }
        self.revision = self.revision + 1;
        Ok(self.snapshot())
    }

    /// Checks that session `id` is current and plays through the audio engine,
    /// which then accepts controls for it.
    pub fn audio_for_session(&self, id: u64) -> (r: Result<(), String>)
        ensures
            match self.current() {
                Some(s) if s.id == id => if is_audio_plan(s.plan) {
                    r is Ok
                } else {
                    r matches Err(e) && e@ == "This engine does not support audio controls"@
                },
                _ => r matches Err(e) && e@ == "Playback session changed"@,
            },
    {
        proof {
            reveal_strlit("Playback session changed");
            reveal_strlit("This engine does not support audio controls");
        }
        match &self.session {
            Some(s) if s.id == id => match &s.plan {
                Some(PlaybackPlan::Audio { .. }) => Ok(()),
                _ => Err(String::from_str("This engine does not support audio controls")),
            },
            _ => Err(String::from_str("Playback session changed")),
        }
    }

    /// Takes over what the audio engine last published for the current
    /// audio session, when it differs from what is shown.
    pub fn sync_audio(&mut self, audio: Option<AudioSnapshot>)
        requires
            old(self).has_room(),
        ensures
            match (old(self).current(), audio) {
                (Some(o), Some(a)) if audio_changes(o, a) => {
                    &&& final(self).generation_spec() == old(self).generation_spec()
                    &&& final(self).revision_spec() == old(self).revision_spec() + 1
                    &&& final(self).current() matches Some(s)
                    &&& s.status == a.status
                    &&& s.position == a.position
                    &&& s.duration == a.duration
                    &&& s.error == a.error
                    &&& s.id == o.id
                    &&& same_media(s.media, o.media)
                    &&& s.plan == o.plan
                    &&& s.playlist_entry_id == o.playlist_entry_id
                    &&& s.browser_sequence == o.browser_sequence
                    &&& s.browser_owner == o.browser_owner
                },
                _ => final(self).unchanged(*old(self)),
            },
    {
        let a = match audio {
            Some(a) => a,
            None => return,
        };
        let changes = match &self.session {
            Some(s) => {
                let audio_plan = match &s.plan {
                    Some(PlaybackPlan::Audio { .. }) => true,
                    _ => false,
                };
                let error_differs = match (&s.error, &a.error) {
                    (Some(x), Some(y)) => !str_eq(x.as_str(), y.as_str()),
                    (None, None) => false,
                    _ => true,
                };
                audio_plan && s.status != PlaybackStatus::Failed && s.status
                    != PlaybackStatus::Stopped && a.session_id == s.id && (s.status != a.status
                    || s.position != a.position || s.duration != a.duration || error_differs)
            },
            None => false,
        };
        if changes {
            match self.session.take() {
                Some(mut session) => {
                    session.status = a.status;
                    session.position = a.position;
                    session.duration = a.duration;
                    session.error = a.error;
                    self.session = Some(session);
                },
                None => {},
            }
            self.revision = self.revision + 1;
        }
    }

    /// The external player of the current session has exited.
    pub fn external_exited(&mut self)
        requires
            old(self).has_room(),
        ensures
            match old(self).current() {
                Some(o) => {
                    &&& final(self).revision_spec() == old(self).revision_spec() + 1
                    &&& final(self).generation_spec() == old(self).generation_spec()
                    &&& final(self).current() matches Some(s)
                    &&& s.status == PlaybackStatus::Stopped
                    &&& s.error == o.error
                    &&& s.id == o.id
                },
                None => final(self).unchanged(*old(self)),
            },
    {
        if let Some(mut session) = self.session.take() {
            session.status = PlaybackStatus::Stopped;
            self.session = Some(session);
            self.revision = self.revision + 1;
        }
    }

    /// Waiting on the external player of the current session failed.
    pub fn external_failed(&mut self, error: String)
        requires
            old(self).has_room(),
        ensures
            match old(self).current() {
                Some(o) => {
                    &&& final(self).revision_spec() == old(self).revision_spec() + 1
                    &&& final(self).generation_spec() == old(self).generation_spec()
                    &&& final(self).current() matches Some(s)
                    &&& s.status == PlaybackStatus::Failed
                    &&& s.error == Some(error)
                    &&& s.id == o.id
                },
                None => final(self).unchanged(*old(self)),
            },
    {
        if let Some(mut session) = self.session.take() {
            session.status = PlaybackStatus::Failed;
            session.error = Some(error);
            self.session = Some(session);
            self.revision = self.revision + 1;
        }
    }

    /// What the player shows now.
    pub fn snapshot(&self) -> (r: PlaybackSnapshot)
        ensures
            r.revision == self.revision_spec(),
            same_opt_session(r.session, self.current()),
    {
        PlaybackSnapshot {
            revision: self.revision,
            session: match &self.session {
                Some(s) => Some(s.duplicate()),
                None => None,
            },
        }
    }
}

impl PlaybackController {
    /// Whether removing the playlist entry `entry_id` (or, with `None`,
    /// clearing the list) must stop playback: the session playing from that
    /// entry stops; clearing stops any session.
    pub fn stops_for_removal(&self, entry_id: Option<&str>) -> (r: bool)
        ensures
            r == match entry_id {
                None => true,
                Some(e) => self.current() matches Some(s) && opt_view(s.playlist_entry_id) == Some(
                    e@,
                ),
            },
    {
        match entry_id {
            None => true,
            Some(e) => match &self.session {
                Some(s) => match &s.playlist_entry_id {
                    Some(x) => str_eq(x.as_str(), e),
                    None => false,
                },
                None => false,
            },
        }
    }

    /// Whether the current session plays media `media_id`, which a rename or
    /// deletion of its file must stop first.
    pub fn plays_media(&self, media_id: &str) -> (r: bool)
        ensures
            r == (self.current() matches Some(s) && s.media.id@ == media_id@),
    {
        match &self.session {
            Some(s) => str_eq(s.media.id.as_str(), media_id),
            None => false,
        }
    }

    /// The entry to move on from when the session `session_id` asks for the
    /// next or previous one: nothing when that session is no longer current,
    /// and an automatic move only happens once the session ended within the
    /// playlist. `Some(None)` moves from no entry.
    pub fn advance_from(&self, session_id: u64, automatic: bool) -> (r: Option<Option<String>>)
        ensures
            !self.matches_spec(session_id) ==> r is None,
            self.matches_spec(session_id) ==> match self.current() {
                Some(s) => if automatic && (s.status != PlaybackStatus::Ended
                    || s.playlist_entry_id is None) {
                    r is None
                } else {
                    r == Some(s.playlist_entry_id)
                },
                None => false,
            },
    {
        if !self.matches(session_id) {
            return None;
        }
        match &self.session {
            Some(s) => {
                if automatic && (s.status != PlaybackStatus::Ended || s.playlist_entry_id.is_none()) {
                    return None;
                }
                Some(clone_opt_string(&s.playlist_entry_id))
            },
            None => None,
        }
    }
}

/// The media type a plan reveals: audio for the audio engine, video otherwise.
pub fn plan_media_type(plan: &PlaybackPlan) -> (r: MediaType)
    ensures
        r == (if plan is Audio {
            MediaType::Audio
        } else {
            MediaType::Video
        }),
{
    match plan {
        PlaybackPlan::Audio { .. } => MediaType::Audio,
        _ => MediaType::Video,
    }
}

} // verus!
