//! Sound as the engine holds it.

use vstd::prelude::*;
use vstd::slice::SliceAdditionalExecFns;
use crate::config::UNIT;
use crate::math::utils::clamped;
use crate::math::{divide, multiply, quotient};

pub mod utils;

verus! {

/// A sound: raw samples, and how to play them.
#[derive(Debug, Clone)]
pub struct AudioClip {
    data: Vec<u8>,
    sample_rate: i32,
    channels: u8,
}

impl AudioClip {
    /// The raw samples.
    pub closed spec fn samples(&self) -> Seq<u8> {
        self.data@
    }

    /// Samples per second.
    pub closed spec fn rate(&self) -> i32 {
        self.sample_rate
    }

    /// The number of channels.
    pub closed spec fn channel_count(&self) -> u8 {
        self.channels
    }

    /// A clip of the given samples; this is how a decoded sound file is
    /// handed to the engine.
    pub fn from_samples(data: Vec<u8>, sample_rate: i32, channels: u8) -> (clip: Self)
        ensures
            clip.samples() == data@,
            clip.rate() == sample_rate,
            clip.channel_count() == channels,
    {
        Self { data, sample_rate, channels }
    }

    /// A clip without samples, in stereo at 44100 samples per second.
    pub fn empty() -> (clip: Self)
        ensures
            clip.samples() == Seq::<u8>::empty(),
            clip.rate() == 44100,
            clip.channel_count() == 2,
    {
        Self { data: Vec::new(), sample_rate: 44100, channels: 2 }
    }

    /// The raw samples.
    pub fn data(&self) -> (data: &[u8])
        ensures
            data@ == self.samples(),
    {
        self.data.as_slice()
    }

    /// Samples per second.
    pub fn sample_rate(&self) -> (rate: i32)
        ensures
            rate == self.rate(),
    {
        self.sample_rate
    }

    /// The number of channels.
    pub fn channels(&self) -> (channels: u8)
        ensures
            channels == self.channel_count(),
    {
        self.channels
    }
}

/// The sample that two bytes stand for: sixteen bits, the low byte first.
pub open spec fn sample_of(low: u8, high: u8) -> int {
    if low + 256 * high >= 32768 {
        low + 256 * high - 65536
    } else {
        low + 256 * high
    }
}

/// A sample at a volume: the sample times the volume, rounded toward
/// silence and held within sixteen bits.
pub open spec fn at_volume(sample: int, volume: int) -> int {
    clamped(quotient(sample * volume, UNIT as int), -32768, 32767)
}

/// A sample at a volume: see `at_volume`.
pub fn scale_sample(sample: i16, volume: i32) -> (scaled: i16)
    ensures
        scaled == at_volume(sample as int, volume as int),
{
    let scaled: i128 = divide(multiply(sample as i64, volume as i64), UNIT as i128);
    if scaled < -32768 {
        -32768
    } else if scaled > 32767 {
        32767
    } else {
        scaled as i16
    }
}

/// Two samples mixed: their sum, held within sixteen bits.
pub open spec fn mixed(a: int, b: int) -> int {
    clamped(a + b, -32768, 32767)
}

/// What a channel and the buffer it plays into have come to while the
/// channel is mixed into the buffer.
pub struct Mixing {
    /// The buffer.
    pub output: Seq<i16>,
    /// Where in the clip the samples for the buffer begin.
    pub position: int,
    /// Whether the channel is still playing.
    pub playing: bool,
}

/// Mixing after place `i` of the buffer was dealt with. The sample for the
/// place lies two bytes further into the clip for each place before it.
/// Where the clip has a whole sample there, it is mixed in at the volume of
/// the channel. Where the clip is over, a channel that loops begins again
/// and leaves the place as it is, and any other stops. Once the channel
/// has stopped nothing changes.
pub open spec fn mix_step(
    state: Mixing,
    data: Seq<u8>,
    volume: int,
    looping: bool,
    i: int,
) -> Mixing {
    let at = state.position + 2 * i;
    if !state.playing {
        state
    } else if at + 1 < data.len() {
        Mixing {
            output: state.output.update(
                i,
                mixed(
                    state.output[i] as int,
                    at_volume(sample_of(data[at], data[at + 1]), volume),
                ) as i16,
            ),
            ..state
        }
    } else if looping {
        Mixing { position: 0, ..state }
    } else {
        Mixing { playing: false, ..state }
    }
}

/// Mixing after the first `count` places of the buffer were dealt with.
pub open spec fn mix_upto(
    state: Mixing,
    data: Seq<u8>,
    volume: int,
    looping: bool,
    count: int,
) -> Mixing
    decreases count,
{
    if count <= 0 {
        state
    } else {
        mix_step(mix_upto(state, data, volume, looping, count - 1), data, volume, looping, count - 1)
    }
}

/// One voice: a clip that is played, where in it the playing has come to,
/// and how loud.
#[derive(Debug, Clone)]
pub struct AudioChannel {
    playing: bool,
    position: usize,
    clip: Option<AudioClip>,
    volume: i32,
    looping: bool,
}

/// What a channel holds.
pub struct ChannelView {
    pub playing: bool,
    /// Where in the clip the playing has come to, in bytes.
    pub position: usize,
    /// The samples of the clip, where the channel has one.
    pub clip: Option<Seq<u8>>,
    /// The volume, from none at zero to full at one.
    pub volume: i32,
    pub looping: bool,
}

impl View for AudioChannel {
    type V = ChannelView;

    closed spec fn view(&self) -> ChannelView {
        ChannelView {
            playing: self.playing,
            position: self.position,
            clip: match self.clip {
                Some(c) => Some(c.samples()),
                None => None,
            },
            volume: self.volume,
            looping: self.looping,
        }
    }
}

impl AudioChannel {
    /// A silent channel at full volume.
    pub fn new() -> (channel: Self)
        ensures
            channel@ == (ChannelView {
                playing: false,
                position: 0,
                clip: None,
                volume: UNIT,
                looping: false,
            }),
    {
        Self { playing: false, position: 0, clip: None, volume: UNIT, looping: false }
    }

    /// Plays a clip from its start.
    pub fn play(&mut self, clip: AudioClip, looping: bool)
        ensures
            final(self)@ == (ChannelView {
                playing: true,
                position: 0,
                clip: Some(clip.samples()),
                looping,
                ..old(self)@
            }),
    {
        self.clip = Some(clip);
        self.position = 0;
        self.playing = true;
        self.looping = looping;
    }

    /// Stops playing and lets go of the clip.
    pub fn stop(&mut self)
        ensures
            final(self)@ == (ChannelView {
                playing: false,
                position: 0,
                clip: None,
                ..old(self)@
            }),
    {
        self.playing = false;
        self.position = 0;
        self.clip = None;
    }

    /// Sets the volume, held between none and full.
    pub fn set_volume(&mut self, volume: i32)
        ensures
            final(self)@ == (ChannelView {
                volume: clamped(volume as int, 0, UNIT as int) as i32,
                ..old(self)@
            }),
    {
        self.volume = if volume < 0 {
            0
        } else if volume > UNIT {
            UNIT
        } else {
            volume
        };
    }

    /// Whether the channel is playing.
    pub fn is_playing(&self) -> (playing: bool)
        ensures
            playing == self@.playing,
    {
        self.playing
    }

    /// Mixes the channel into a buffer of samples: see `mix_upto`. Then
    /// the channel has come two bytes further for each place of the
    /// buffer. A channel that does not play, or has no clip, changes
    /// nothing.
    pub fn mix_audio(&mut self, output: &mut [i16])
        ensures
            final(output)@.len() == old(output)@.len(),
            !old(self)@.playing || old(self)@.clip is None ==> final(output)@ == old(output)@
                && final(self)@ == old(self)@,
            old(self)@.playing && old(self)@.clip is Some ==> {
                let end = mix_upto(
                    Mixing {
                        output: old(output)@,
                        position: old(self)@.position as int,
                        playing: true,
                    },
                    old(self)@.clip->0,
                    old(self)@.volume as int,
                    old(self)@.looping,
                    old(output)@.len() as int,
                );
                &&& final(output)@ == end.output
                &&& final(self)@ == (ChannelView {
                    playing: end.playing,
                    position: (if end.position + 2 * old(output)@.len() > usize::MAX {
                        usize::MAX as int
                    } else {
                        end.position + 2 * old(output)@.len()
                    }) as usize,
                    ..old(self)@
                })
            },
    {
        if !self.playing {
            return ;
        }
        let n = output.len();
        let mut position = self.position;
        let mut playing = true;
        match &self.clip {
            None => {
                return ;
            },
            Some(clip) => {
                let audio_data = clip.data();
                let ghost start = Mixing {
                    output: old(output)@,
                    position: self.position as int,
                    playing: true,
                };
                let mut i: usize = 0;
                while i < n && playing
                    invariant
                        i <= n,
                        n == output@.len(),
                        n == old(output)@.len(),
                        audio_data@ == clip.samples(),
                        mix_upto(start, audio_data@, self.volume as int, self.looping, i as int)
                            == (Mixing { output: output@, position: position as int, playing }),
                    decreases n - i + (if playing {
                        1int
                    } else {
                        0int
                    }),
                {
                    let byte_pos: u128 = position as u128 + 2 * (i as u128);
                    if byte_pos + 1 < audio_data.len() as u128 {
                        let at: usize = byte_pos as usize;
                        let low = audio_data[at];
                        let high = audio_data[at + 1];
                        let raw: i32 = low as i32 + 256 * (high as i32);
                        let sample: i32 = if raw >= 32768 {
                            raw - 65536
                        } else {
                            raw
                        };
                        let scaled: i128 = divide(
                            multiply(sample as i64, self.volume as i64),
                            UNIT as i128,
                        );
                        let loud: i128 = if scaled < -32768 {
                            -32768
                        } else if scaled > 32767 {
                            32767
                        } else {
                            scaled
                        };
                        let sum: i128 = output[i] as i128 + loud;
                        let held: i16 = if sum < -32768 {
                            -32768
                        } else if sum > 32767 {
                            32767
                        } else {
                            sum as i16
                        };
                        output.set(i, held);
                    } else if self.looping {
                        position = 0;
                    } else {
                        playing = false;
                    }
                    i += 1;
                }
                proof {
                    lemma_mix_stays_stopped(
                        start,
                        audio_data@,
                        self.volume as int,
                        self.looping,
                        i as int,
                        n as int,
                    );
                }
            },
        }
        self.playing = playing;
        self.position = position.saturating_add(n).saturating_add(n);
    }
}

/// Once a channel has stopped, dealing with more places changes nothing.
proof fn lemma_mix_stays_stopped(
    state: Mixing,
    data: Seq<u8>,
    volume: int,
    looping: bool,
    from: int,
    to: int,
)
    requires
        0 <= from <= to,
        from < to ==> !mix_upto(state, data, volume, looping, from).playing,
    ensures
        mix_upto(state, data, volume, looping, to) == mix_upto(state, data, volume, looping, from),
    decreases to - from,
{
    if from < to {
        lemma_mix_stays_stopped(state, data, volume, looping, from, to - 1);
    }
}

/// How loud the game is.
#[derive(Debug, Clone, Copy, PartialEq, Eq, Structural)]
pub struct AudioConfig {
    /// Volume of everything, from none at zero to full at one.
    pub master_volume: i32,
    /// Volume of the music.
    pub music_volume: i32,
    /// Volume of the sounds.
    pub sound_volume: i32,
    /// Whether there is sound at all.
    pub enabled: bool,
}

impl Default for AudioConfig {
    /// Everything at full volume, the music at seven tenths and the sounds
    /// at eight tenths of it.
    fn default() -> (config: Self)
        ensures
            config == (AudioConfig {
                master_volume: 1000,
                music_volume: 700,
                sound_volume: 800,
                enabled: true,
            }),
    {
        Self { master_volume: 1000, music_volume: 700, sound_volume: 800, enabled: true }
    }
}

} // verus!
