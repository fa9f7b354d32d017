use crate::als::{find_profile, spec_is_profile};
use crate::text::{parse_decimal, spec_parse_decimal};
use std::collections::HashMap;
use vstd::prelude::*;

verus! {

/// The lux value that stands until the command has brought one.
pub const DEFAULT_LUX: u64 = 100;

/// The pause between two runs of the command, in milliseconds.
pub const WAITING_SLEEP_MS: u64 = 2000;

/// How a run of the command ended, and what it printed.
pub struct Output {
    pub success: bool,
    pub stdout: Vec<u8>,
}

/// The lux value that a run of the command brought: the number that it
/// printed, where it ended well and printed a number and nothing else.
pub open spec fn spec_lux(output: Output) -> Option<u64> {
    if output.success {
        spec_parse_decimal(output.stdout@, u64::MAX)
    } else {
        None
    }
}

/// The lux values that the first `count` of `outputs` brought, in order.
pub open spec fn spec_lux_values(outputs: Seq<Output>, count: nat) -> Seq<u64>
    decreases count,
{
    if count == 0 {
        Seq::empty()
    } else {
        let before = spec_lux_values(outputs, (count - 1) as nat);
        match spec_lux(outputs[count - 1]) {
            Some(lux) => before.push(lux),
            None => before,
        }
    }
}

/// A shell command that prints the ambient light.
pub struct Cmd {
    pub command: String,
}

impl Cmd {
    /// The command `command`, as the shell is given it.
    pub fn new(command: String) -> (cmd: Self)
        ensures
            cmd.command == command,
    {
        Self { command }
    }

    /// The lux value that a run of the command brought.
    pub fn output(&self, output: &Output) -> (lux: Option<u64>)
        ensures
            lux == spec_lux(*output),
    {
        if !output.success {
            return None;
        }
        parse_decimal(output.stdout.as_slice(), u64::MAX)
    }

    /// The lux values to send on for the runs of `outputs`, in order: one
    /// for each run that brought one.
    pub fn run(&self, outputs: &Vec<Output>) -> (sent: Vec<u64>)
        ensures
            sent@ == spec_lux_values(outputs@, outputs@.len()),
    {
        let mut sent: Vec<u64> = Vec::new();
        let mut index: usize = 0;
        while index < outputs.len()
            invariant
                index <= outputs@.len(),
                sent@ == spec_lux_values(outputs@, index as nat),
            decreases outputs@.len() - index,
        {
            if let Some(lux) = self.output(&outputs[index]) {
                sent.push(lux);
            }
            index += 1;
        }
        sent
    }
}

/// The raw value after `arrived`: the newest of them, and `known` where
/// none arrived.
pub open spec fn spec_latest(arrived: Seq<u64>, known: u64) -> u64 {
    if arrived.len() > 0 {
        arrived.last()
    } else {
        known
    }
}

/// The light source that is fed by a command.
pub struct Als {
    pub thresholds: HashMap<u64, String>,
    /// The last raw value known.
    pub lux: u64,
}

impl Als {
    /// A source that knows `DEFAULT_LUX` until the command brings a value.
    pub fn new(thresholds: HashMap<u64, String>) -> (source: Self)
        ensures
            source.thresholds == thresholds,
            source.lux == DEFAULT_LUX,
    {
        Self { thresholds, lux: DEFAULT_LUX }
    }

    /// The raw value after the values of `arrived` came in: the newest of
    /// them, and the last one known where none came.
    pub fn get_raw(&mut self, arrived: &Vec<u64>) -> (raw: u64)
        ensures
            raw == spec_latest(arrived@, old(self).lux),
            final(self).lux == raw,
            final(self).thresholds == old(self).thresholds,
    {
        if arrived.len() > 0 {
            self.lux = arrived[arrived.len() - 1];
        }
        self.lux
    }

    /// The label under which the raw value falls after the values of
    /// `arrived` came in.
    pub fn get(&mut self, arrived: &Vec<u64>) -> (profile: String)
        requires
            old(self).thresholds@.len() > 0,
        ensures
            spec_is_profile(spec_latest(arrived@, old(self).lux), old(self).thresholds@, profile@),
            final(self).lux == spec_latest(arrived@, old(self).lux),
            final(self).thresholds == old(self).thresholds,
    {
        let raw = self.get_raw(arrived);
        find_profile(raw, &self.thresholds)
    }
}

} // verus!
