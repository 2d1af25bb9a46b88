//! The two kernel interfaces behind one shape: where a speed sample is read,
//! how its text is read, and which writes commit a duty cycle triple.
use vstd::prelude::*;

use crate::wire::{
    decimal_text, parse_split_speed, parse_unified_speed, render_duty, render_unified_command,
    split_speed, unified_speed, unified_command,
};

verus! {

/// How the driver exposes itself.
#[derive(Clone, Copy, Debug, PartialEq, Eq, Structural)]
pub enum Backend {
    /// One character device: the speed is read from it and commands are
    /// written to it.
    Unified,
    /// One attribute file per signal: the speed in one, each duty cycle in
    /// its own.
    Split,
}

/// A file that the loop reads or writes.
#[derive(Clone, Copy, Debug, PartialEq, Eq, Structural)]
pub enum Channel {
    /// The character device of the unified interface.
    Device,
    /// The speed attribute of the split interface.
    ButtonSpeed,
    /// The duty cycle attribute of the first LED.
    Led1Duty,
    /// The duty cycle attribute of the second LED.
    Led2Duty,
    /// The duty cycle attribute of the third LED.
    Led3Duty,
}

/// One write of a commit: the bytes to write at the start of a file.
#[derive(Debug)]
pub struct ChannelWrite {
    pub channel: Channel,
    pub bytes: Vec<u8>,
}

impl View for ChannelWrite {
    type V = (Channel, Seq<u8>);

    open spec fn view(&self) -> (Channel, Seq<u8>) {
        (self.channel, self.bytes@)
    }
}

/// The file that a speed sample is read from.
pub open spec fn speed_channel_of(backend: Backend) -> Channel {
    match backend {
        Backend::Unified => Channel::Device,
        Backend::Split => Channel::ButtonSpeed,
    }
}

/// The speed that a backend reads from the text of its speed file.
pub open spec fn sampled_speed(backend: Backend, text: Seq<char>) -> u64 {
    match backend {
        Backend::Unified => unified_speed(text),
        Backend::Split => split_speed(text),
    }
}

/// The writes, in order, that commit a duty cycle triple.
pub open spec fn commit_plan(backend: Backend, led1: nat, led2: nat, led3: nat) -> Seq<(Channel, Seq<u8>)> {
    match backend {
        Backend::Unified => seq![(Channel::Device, unified_command(led1, led2, led3))],
        Backend::Split => seq![
            (Channel::Led1Duty, decimal_text(led1)),
            (Channel::Led2Duty, decimal_text(led2)),
            (Channel::Led3Duty, decimal_text(led3)),
        ],
    }
}

/// What a file holds after `data` is written at its start without truncating
/// it: the bytes past the end of `data` stay.
pub open spec fn overwrite(content: Seq<u8>, data: Seq<u8>) -> Seq<u8> {
    if data.len() >= content.len() {
        data
    } else {
        data + content.skip(data.len() as int)
    }
}

/// The files after each write of `writes` is made in order.
pub open spec fn apply_writes(files: Map<Channel, Seq<u8>>, writes: Seq<(Channel, Seq<u8>)>) -> Map<
    Channel,
    Seq<u8>,
>
    decreases writes.len(),
{
    if writes.len() == 0 {
        files
    } else {
        let (channel, data) = writes[0];
        apply_writes(files.insert(channel, overwrite(files[channel], data)), writes.drop_first())
    }
}

impl Backend {
    /// The file that a speed sample is read from.
    pub fn speed_channel(&self) -> (r: Channel)
        ensures
            r == speed_channel_of(*self),
    {
        match self {
            Backend::Unified => Channel::Device,
            Backend::Split => Channel::ButtonSpeed,
        }
    }

    /// Reads a speed sample from the text of the speed file. Text that holds
    /// no number where one is expected gives zero.
    pub fn read_speed(&self, text: &str) -> (r: u64)
        ensures
            r == sampled_speed(*self, text@),
    {
        match self {
            Backend::Unified => parse_unified_speed(text),
            Backend::Split => parse_split_speed(text),
        }
    }

    /// The writes, in order, that commit the duty cycles of the three LEDs.
    pub fn commit_writes(&self, led1: u32, led2: u32, led3: u32) -> (r: Vec<ChannelWrite>)
        ensures
            r@.map_values(|w: ChannelWrite| w@) == commit_plan(
                *self,
                led1 as nat,
                led2 as nat,
                led3 as nat,
            ),
    {
        let mut writes: Vec<ChannelWrite> = Vec::new();
        match self {
            Backend::Unified => {
                let bytes = render_unified_command(led1, led2, led3);
                writes.push(ChannelWrite { channel: Channel::Device, bytes });
            },
            Backend::Split => {
                let bytes = render_duty(led1);
                writes.push(ChannelWrite { channel: Channel::Led1Duty, bytes });
                let bytes = render_duty(led2);
                writes.push(ChannelWrite { channel: Channel::Led2Duty, bytes });
                let bytes = render_duty(led3);
                writes.push(ChannelWrite { channel: Channel::Led3Duty, bytes });
            },
        }
        assert(writes@.map_values(|w: ChannelWrite| w@) =~= commit_plan(
            *self,
            led1 as nat,
            led2 as nat,
            led3 as nat,
        ));
        writes
    }
}

/// Writing the same data twice at the start of a file leaves what writing it
/// once leaves.
pub proof fn lemma_overwrite_idempotent(content: Seq<u8>, data: Seq<u8>)
    ensures
        overwrite(overwrite(content, data), data) == overwrite(content, data),
{
    if data.len() < content.len() {
        assert(overwrite(content, data).skip(data.len() as int) =~= content.skip(
            data.len() as int,
        ));
    }
}

/// Committing the same triple twice leaves the files as committing it once
/// does: nothing accumulates.
pub proof fn lemma_commit_idempotent(
    backend: Backend,
    files: Map<Channel, Seq<u8>>,
    led1: nat,
    led2: nat,
    led3: nat,
)
    ensures
        apply_writes(
            apply_writes(files, commit_plan(backend, led1, led2, led3)),
            commit_plan(backend, led1, led2, led3),
        ) == apply_writes(files, commit_plan(backend, led1, led2, led3)),
{
    let plan = commit_plan(backend, led1, led2, led3);
    let once = apply_writes(files, plan);
    reveal_with_fuel(apply_writes, 4);
    match backend {
        Backend::Unified => {
            lemma_overwrite_idempotent(files[Channel::Device], unified_command(led1, led2, led3));
        },
        Backend::Split => {
            lemma_overwrite_idempotent(files[Channel::Led1Duty], decimal_text(led1));
            lemma_overwrite_idempotent(files[Channel::Led2Duty], decimal_text(led2));
            lemma_overwrite_idempotent(files[Channel::Led3Duty], decimal_text(led3));
        },
    }
    assert(apply_writes(once, plan) =~= once);
}

} // verus!
