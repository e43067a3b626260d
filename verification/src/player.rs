//! The playback state machine.
//!
//! The player decides; the program around it owns the output device. Each
//! step takes what the program observed (the reading of a clock that never
//! runs backwards, in nanoseconds; whether the device has run empty; what a
//! probe sent) and tells the program what to do with the device.

use vstd::prelude::*;
use vstd::string::*;
use crate::app::DurationUpdate;
use crate::paths::{file_stem_of, path_file_stem};
use crate::timespan::{span_nanos, TimeSpan};

verus! {

/// Whether a track is playing, paused, or none is loaded.
#[derive(Debug, Clone, Copy, PartialEq, Eq, Structural)]
pub enum PlaybackState {
    Playing,
    Paused,
    Stopped,
}

/// What the program has to do with the output device after a step.
#[derive(Debug, Clone, Copy, PartialEq, Eq, Structural)]
pub enum SinkCommand {
    /// Leave the device as it is.
    Nothing,
    /// Stop what is playing, queue the new track and play it.
    Restart,
    /// Hold the output.
    Pause,
    /// Let the output go on.
    Play,
    /// Stop the output and drop what is queued.
    Stop,
}

/// What starting a track asks of the program.
#[derive(Debug, Clone, Copy, PartialEq, Eq, Structural)]
pub struct PlayStart {
    /// What to do with the output device.
    pub command: SinkCommand,
    /// Whether the duration of the track is still unknown, so that a probe
    /// has to be launched for it.
    pub probe: bool,
}

/// The sum of `a` and `b`, held at `u64::MAX`.
pub open spec fn held_sum(a: u64, b: u64) -> u64 {
    if a + b > u64::MAX {
        u64::MAX
    } else {
        (a + b) as u64
    }
}

/// How far `now` is past `since`; nothing where it is not past it.
pub open spec fn time_past(since: u64, now: u64) -> u64 {
    if now >= since {
        (now - since) as u64
    } else {
        0
    }
}

/// The anchor of the elapsed time of a track: the elapsed time at the
/// reading `since`, and whether it has advanced with the clock from then on.
#[derive(Debug, Clone, Copy, PartialEq, Eq, Structural)]
pub struct PlaybackClock {
    pub running: bool,
    pub base: u64,
    pub since: u64,
}

impl PlaybackClock {
    /// The elapsed time in nanoseconds at the reading `now`.
    pub open spec fn elapsed_at(self, now: u64) -> u64 {
        if self.running {
            held_sum(self.base, time_past(self.since, now))
        } else {
            self.base
        }
    }

    /// The clock of a track that starts at the reading `now`.
    pub open spec fn started_at(now: u64) -> PlaybackClock {
        PlaybackClock { running: true, base: 0, since: now }
    }

    /// The clock after a pause at the reading `now`: the elapsed time stays
    /// what it is at `now`.
    pub open spec fn paused_at(self, now: u64) -> PlaybackClock {
        PlaybackClock { running: false, base: self.elapsed_at(now), since: now }
    }

    /// The clock after a resume at the reading `now`: the elapsed time goes
    /// on from what it is at `now`.
    pub open spec fn resumed_at(self, now: u64) -> PlaybackClock {
        PlaybackClock { running: true, base: self.elapsed_at(now), since: now }
    }

    /// The clock of a track that starts at the reading `now`.
    pub fn start(now: u64) -> (clock: PlaybackClock)
        ensures
            clock == PlaybackClock::started_at(now),
    {
        PlaybackClock { running: true, base: 0, since: now }
    }

    /// The elapsed time in nanoseconds at the reading `now`.
    pub fn elapsed(&self, now: u64) -> (nanos: u64)
        ensures
            nanos == self.elapsed_at(now),
    {
        if self.running {
            let past: u64 = if now >= self.since {
                now - self.since
            } else {
                0
            };
            self.base.saturating_add(past)
        } else {
            self.base
        }
    }

    /// The clock after a pause at the reading `now`.
    pub fn pause(&self, now: u64) -> (clock: PlaybackClock)
        ensures
            clock == self.paused_at(now),
    {
        PlaybackClock { running: false, base: self.elapsed(now), since: now }
    }

    /// The clock after a resume at the reading `now`.
    pub fn resume(&self, now: u64) -> (clock: PlaybackClock)
        ensures
            clock == self.resumed_at(now),
    {
        PlaybackClock { running: true, base: self.elapsed(now), since: now }
    }
}

/// A track that starts at `started`, is paused at `paused`, resumed at
/// `resumed` and read at `read` has played for the time before the pause and
/// the time after the resume, however long the pause was.
pub proof fn lemma_pause_resume_continuity(started: u64, paused: u64, resumed: u64, read: u64)
    requires
        started <= paused <= resumed <= read,
    ensures
        PlaybackClock::started_at(started).paused_at(paused).resumed_at(resumed).elapsed_at(read)
            == (paused - started) + (read - resumed),
{
}

/// A paused clock stands still, a resumed clock goes on from where it stood,
/// and no clock runs backwards.
pub proof fn lemma_clock_steady(clock: PlaybackClock, at: u64, earlier: u64, later: u64)
    requires
        earlier <= later,
    ensures
        clock.paused_at(at).elapsed_at(later) == clock.elapsed_at(at),
        clock.resumed_at(at).elapsed_at(at) == clock.elapsed_at(at),
        clock.elapsed_at(earlier) <= clock.elapsed_at(later),
{
}

/// The name under which the track at `path` is shown: its file name without
/// the extension, or nothing where the path has no file name.
pub open spec fn display_name(path: Seq<char>) -> Seq<char> {
    match path_file_stem(path) {
        Some(stem) => stem,
        None => Seq::empty(),
    }
}

/// What the player keeps of a track besides its path and name.
#[derive(Debug)]
pub struct TrackTiming {
    total: Option<TimeSpan>,
    probe_awaited: bool,
    clock: PlaybackClock,
}

impl TrackTiming {
    /// The length of the track in nanoseconds, where it is known.
    pub closed spec fn total(&self) -> Option<nat> {
        span_nanos(self.total)
    }

    /// Whether the result of a probe is being waited for.
    pub closed spec fn probe_awaited(&self) -> bool {
        self.probe_awaited
    }

    /// The anchor of the elapsed time.
    pub closed spec fn clock(&self) -> PlaybackClock {
        self.clock
    }

    /// Whether the result of a probe is being waited for.
    pub fn awaits_probe(&self) -> (awaited: bool)
        ensures
            awaited == self.probe_awaited(),
    {
        self.probe_awaited
    }

    /// Whether nothing is kept: no length, no probe awaited, the clock at
    /// rest on nothing.
    pub open spec fn cleared(&self) -> bool {
        &&& self.total() is None
        &&& !self.probe_awaited()
        &&& self.clock() == (PlaybackClock { running: false, base: 0, since: 0 })
    }
}

/// The player: the track that is loaded, if any, and how far it has played.
#[derive(Debug)]
pub struct MusicPlayer {
    pub current_song_path: Option<String>,
    pub current_song_name: Option<String>,
    pub state: PlaybackState,
    pub timing: TrackTiming,
}

impl MusicPlayer {
    /// Whether no track is loaded and nothing is kept of one.
    pub open spec fn idle(&self) -> bool {
        &&& self.current_song_path is None
        &&& self.current_song_name is None
        &&& self.state == PlaybackState::Stopped
        &&& self.timing.cleared()
    }

    /// Whether the parts of the player agree: with no track loaded nothing
    /// is kept of one, and a loaded track has a path and a name and a clock
    /// that runs exactly while the track is playing.
    pub open spec fn consistent(&self) -> bool {
        if self.state == PlaybackState::Stopped {
            self.idle()
        } else {
            &&& self.current_song_path is Some
            &&& self.current_song_name is Some
            &&& self.timing.clock().running == (self.state == PlaybackState::Playing)
        }
    }

    /// The elapsed time in nanoseconds at the reading `now`, while a track is
    /// loaded.
    pub open spec fn position_at(&self, now: u64) -> Option<nat> {
        if self.state == PlaybackState::Stopped {
            None
        } else {
            Some(self.timing.clock().elapsed_at(now) as nat)
        }
    }

    /// A player with no track loaded.
    pub fn new() -> (player: MusicPlayer)
        ensures
            player.idle(),
            player.consistent(),
    {
        MusicPlayer {
            current_song_path: None,
            current_song_name: None,
            state: PlaybackState::Stopped,
            timing: TrackTiming {
                total: None,
                probe_awaited: false,
                clock: PlaybackClock { running: false, base: 0, since: 0 },
            },
        }
    }

    fn clear_track_state(&mut self)
        ensures
            final(self).idle(),
    {
        self.current_song_path = None;
        self.current_song_name = None;
        self.timing.total = None;
        self.timing.probe_awaited = false;
        self.timing.clock = PlaybackClock { running: false, base: 0, since: 0 };
        self.state = PlaybackState::Stopped;
    }

    /// Takes in what happened since the last step. `arrived` is what the
    /// probe sent, if it sent anything; it is taken only while a probe is
    /// awaited, ends the wait, and sets the length of the track only if it
    /// is for the track that is loaded. `sink_empty` says that the output
    /// device has nothing left to play: a loaded track has then ended, and
    /// the player is cleared as by `stop`.
    pub fn update_state(&mut self, arrived: Option<DurationUpdate>, sink_empty: bool)
        ensures
            old(self).consistent() ==> final(self).consistent(),
            old(self).state != PlaybackState::Stopped && sink_empty ==> final(self).idle(),
            !(old(self).state != PlaybackState::Stopped && sink_empty) ==> {
                &&& final(self).current_song_path == old(self).current_song_path
                &&& final(self).current_song_name == old(self).current_song_name
                &&& final(self).state == old(self).state
                &&& final(self).timing.clock() == old(self).timing.clock()
                &&& final(self).timing.probe_awaited() == (old(self).timing.probe_awaited()
                    && arrived is None)
                &&& final(self).timing.total() == match arrived {
                    Some(update) if old(self).timing.probe_awaited() && (old(
                        self,
                    ).current_song_path matches Some(path) && path@ == update.path@) => span_nanos(
                        update.duration,
                    ),
                    _ => old(self).timing.total(),
                }
            },
    {
        if self.timing.probe_awaited {
            if let Some(update) = arrived {
                self.timing.probe_awaited = false;
                let same = match &self.current_song_path {
                    Some(path) => *path == update.path,
                    None => false,
                };
                if same {
                    self.timing.total = update.duration;
                }
            }
        }
        if self.state != PlaybackState::Stopped && sink_empty {
            self.clear_track_state();
        }
    }

    /// Starts the track at `path`. `opened` is what opening and decoding the
    /// file gave: the length that the decoder reports, if it reports one, or
    /// the message of the failure. After a failure the player is as before
    /// and the message is handed back. Otherwise the track is playing from
    /// the reading `now`; its length is the decoder's, else
    /// `prefetched_duration`, else unknown, and then a probe is asked for.
    pub fn play_file(
        &mut self,
        path: String,
        opened: Result<Option<TimeSpan>, String>,
        prefetched_duration: Option<TimeSpan>,
        now: u64,
    ) -> (started: Result<PlayStart, String>)
        ensures
            old(self).consistent() ==> final(self).consistent(),
            opened matches Err(message) ==> started == Err::<PlayStart, String>(message)
                && *final(self) == *old(self),
            opened matches Ok(reported) ==> {
                let total = if reported is Some {
                    span_nanos(reported)
                } else {
                    span_nanos(prefetched_duration)
                };
                &&& started == Ok::<PlayStart, String>(
                    PlayStart { command: SinkCommand::Restart, probe: total is None },
                )
                &&& final(self).current_song_path == Some(path)
                &&& final(self).current_song_name matches Some(name) && name@ == display_name(
                    path@,
                )
                &&& final(self).state == PlaybackState::Playing
                &&& final(self).timing.total() == total
                &&& final(self).timing.probe_awaited() == (total is None)
                &&& final(self).timing.clock() == PlaybackClock::started_at(now)
            },
    {
        let reported = match opened {
            Ok(reported) => reported,
            Err(message) => {
                return Err(message);
            },
        };
        let total = match reported {
            Some(length) => Some(length),
            None => prefetched_duration,
        };
        let name = match file_stem_of(path.as_str()) {
            Some(stem) => stem,
            None => String::new(),
        };
        let probe = total.is_none();
        self.timing.total = total;
        self.timing.probe_awaited = probe;
        self.timing.clock = PlaybackClock::start(now);
        self.current_song_path = Some(path);
        self.current_song_name = Some(name);
        self.state = PlaybackState::Playing;
        Ok(PlayStart { command: SinkCommand::Restart, probe })
    }

    /// Pauses a playing track at the reading `now`: the elapsed time stays
    /// what it is. In any other state nothing changes.
    pub fn pause(&mut self, now: u64) -> (command: SinkCommand)
        ensures
            old(self).consistent() ==> final(self).consistent(),
            old(self).state == PlaybackState::Playing ==> {
                &&& command == SinkCommand::Pause
                &&& final(self).state == PlaybackState::Paused
                &&& final(self).timing.clock() == old(self).timing.clock().paused_at(now)
            },
            old(self).state != PlaybackState::Playing ==> {
                &&& command == SinkCommand::Nothing
                &&& final(self).state == old(self).state
                &&& final(self).timing.clock() == old(self).timing.clock()
            },
            final(self).current_song_path == old(self).current_song_path,
            final(self).current_song_name == old(self).current_song_name,
            final(self).timing.total() == old(self).timing.total(),
            final(self).timing.probe_awaited() == old(self).timing.probe_awaited(),
    {
        if self.state == PlaybackState::Playing {
            self.timing.clock = self.timing.clock.pause(now);
            self.state = PlaybackState::Paused;
            SinkCommand::Pause
        } else {
            SinkCommand::Nothing
        }
    }

    /// Resumes a paused track at the reading `now`: the elapsed time goes on
    /// from what it was. In any other state nothing changes.
    pub fn resume(&mut self, now: u64) -> (command: SinkCommand)
        ensures
            old(self).consistent() ==> final(self).consistent(),
            old(self).state == PlaybackState::Paused ==> {
                &&& command == SinkCommand::Play
                &&& final(self).state == PlaybackState::Playing
                &&& final(self).timing.clock() == old(self).timing.clock().resumed_at(now)
            },
            old(self).state != PlaybackState::Paused ==> {
                &&& command == SinkCommand::Nothing
                &&& final(self).state == old(self).state
                &&& final(self).timing.clock() == old(self).timing.clock()
            },
            final(self).current_song_path == old(self).current_song_path,
            final(self).current_song_name == old(self).current_song_name,
            final(self).timing.total() == old(self).timing.total(),
            final(self).timing.probe_awaited() == old(self).timing.probe_awaited(),
    {
        if self.state == PlaybackState::Paused {
            self.timing.clock = self.timing.clock.resume(now);
            self.state = PlaybackState::Playing;
            SinkCommand::Play
        } else {
            SinkCommand::Nothing
        }
    }

    /// Pauses a playing track and resumes a paused one, at the reading
    /// `now`. With no track loaded nothing changes.
    pub fn toggle_pause(&mut self, now: u64) -> (command: SinkCommand)
        ensures
            old(self).consistent() ==> final(self).consistent(),
            old(self).state == PlaybackState::Playing ==> {
                &&& command == SinkCommand::Pause
                &&& final(self).state == PlaybackState::Paused
                &&& final(self).timing.clock() == old(self).timing.clock().paused_at(now)
            },
            old(self).state == PlaybackState::Paused ==> {
                &&& command == SinkCommand::Play
                &&& final(self).state == PlaybackState::Playing
                &&& final(self).timing.clock() == old(self).timing.clock().resumed_at(now)
            },
            old(self).state == PlaybackState::Stopped ==> {
                &&& command == SinkCommand::Nothing
                &&& final(self).state == PlaybackState::Stopped
                &&& final(self).timing.clock() == old(self).timing.clock()
            },
            final(self).current_song_path == old(self).current_song_path,
            final(self).current_song_name == old(self).current_song_name,
            final(self).timing.total() == old(self).timing.total(),
            final(self).timing.probe_awaited() == old(self).timing.probe_awaited(),
    {
        match self.state {
            PlaybackState::Playing => self.pause(now),
            PlaybackState::Paused => self.resume(now),
            PlaybackState::Stopped => SinkCommand::Nothing,
        }
    }

    /// Stops the output and forgets the track, whatever the state.
    pub fn stop(&mut self) -> (command: SinkCommand)
        ensures
            command == SinkCommand::Stop,
            final(self).idle(),
            final(self).consistent(),
    {
        self.clear_track_state();
        SinkCommand::Stop
    }

    /// Whether the track at `path` is the one that is loaded. Spelling
    /// decides: two spellings of one file are two tracks.
    pub fn is_playing_track(&self, path: &String) -> (loaded: bool)
        ensures
            loaded == (self.current_song_path matches Some(current) && current@ == path@),
    {
        match &self.current_song_path {
            Some(current) => *current == *path,
            None => false,
        }
    }

    /// The elapsed time of the loaded track at the reading `now`; `None`
    /// with no track loaded.
    pub fn current_position(&self, now: u64) -> (position: Option<TimeSpan>)
        ensures
            span_nanos(position) == self.position_at(now),
    {
        if self.state == PlaybackState::Stopped {
            None
        } else {
            Some(TimeSpan::from_nanos(self.timing.clock.elapsed(now)))
        }
    }

    /// The length of the loaded track, where it is known.
    pub fn current_duration(&self) -> (total: Option<TimeSpan>)
        ensures
            span_nanos(total) == self.timing.total(),
    {
        self.timing.total
    }
}

/// The nanoseconds that `total_samples` samples last at `sample_rate`
/// samples a second on each of `channels` channels, rounded down.
pub open spec fn sample_nanos(total_samples: u64, sample_rate: u32, channels: u16) -> nat {
    ((total_samples as nat * 1_000_000_000) / (sample_rate as nat * channels as nat)) as nat
}

/// The duration of a decoded stream of `total_samples` samples. A stream
/// that reports no sample rate or no channel has no duration.
pub fn probe_duration(total_samples: u64, sample_rate: u32, channels: u16) -> (duration: Option<
    TimeSpan,
>)
    ensures
        sample_rate == 0 || channels == 0 <==> duration is None,
        duration matches Some(span) ==> span@ == sample_nanos(total_samples, sample_rate, channels),
{
    if sample_rate == 0 || channels == 0 {
        return None;
    }
    assert(0 < sample_rate as int * channels as int <= 0xffff_ffff * 0xffff) by (nonlinear_arith)
        requires
            0 < sample_rate <= 0xffff_ffff,
            0 < channels <= 0xffff,
    ;
    let per_second: u64 = (sample_rate as u64) * (channels as u64);
    let secs: u64 = total_samples / per_second;
    let rest: u64 = total_samples % per_second;
    let scaled: u128 = (rest as u128) * 1_000_000_000;
    let nanos: u128 = scaled / (per_second as u128);
    proof {
        let d = per_second as int;
        let t = total_samples as int;
        vstd::arithmetic::div_mod::lemma_fundamental_div_mod(t, d);
        assert(d * (t / d) == (t / d) * d) by (nonlinear_arith);
        assert(nanos < 1_000_000_000 && (t * 1_000_000_000) / d == secs * 1_000_000_000 + nanos)
            by (nonlinear_arith)
            requires
                d > 0,
                0 <= rest < d,
                t == secs * d + rest,
                nanos == (rest * 1_000_000_000) / d,
        ;
    }
    TimeSpan::from_parts(secs, nanos as u32)
}

} // verus!
