use crate::brightness::spec_clamp;
use crate::brightness::clamp;
use crate::text::equal;
use vstd::prelude::*;
use vstd::string::StringExecFns;

verus! {

/// What a look at the watched files brought, without waiting.
#[derive(Debug, PartialEq, Eq, Clone, Copy, Structural)]
pub enum Events {
    /// The look succeeded; `changed` tells whether any file was modified.
    Read { changed: bool },
    /// Nothing to read yet.
    WouldBlock,
    /// The look failed.
    Failed,
}

/// How the brightness is to be had.
#[derive(Debug, PartialEq, Eq, Clone, Copy, Structural)]
pub enum Reading {
    /// Read the brightness file and hand its value to `update`.
    File,
    /// The value is the one last known.
    Cached(u64),
    /// It cannot be had on this tick.
    Failed,
}

/// How a brightness is to be written.
#[derive(Debug, PartialEq, Eq, Clone, Copy, Structural)]
pub enum Writing {
    /// Write the value into the brightness file.
    File(u64),
    /// Ask the session manager to set the value.
    Dbus(u32),
    /// There is no way to write.
    Denied,
}

/// The kinds of device whose brightness the session manager sets.
#[derive(Debug, PartialEq, Eq, Clone, Copy, Structural)]
pub enum Subsystem {
    Backlight,
    Leds,
}

impl Subsystem {
    /// The name of the kind.
    pub open spec fn spec_name(&self) -> Seq<char> {
        match self {
            Subsystem::Backlight => "backlight"@,
            Subsystem::Leds => "leds"@,
        }
    }

    /// The name of the kind, as the session manager is told it.
    pub fn name(&self) -> (name: String)
        ensures
            name@ == self.spec_name(),
    {
        match self {
            Subsystem::Backlight => String::from_str("backlight"),
            Subsystem::Leds => String::from_str("leds"),
        }
    }

    /// The kind of a device, from the name of the directory that holds
    /// the device's own: `backlight` or `leds`, and none for any other.
    pub fn of_parent(parent: &str) -> (subsystem: Option<Subsystem>)
        ensures
            parent@ == "backlight"@ ==> subsystem == Some(Subsystem::Backlight),
            parent@ == "leds"@ ==> subsystem == Some(Subsystem::Leds),
            parent@ != "backlight"@ && parent@ != "leds"@ ==> subsystem is None,
    {
        proof {
            reveal_strlit("backlight");
            reveal_strlit("leds");
            assert("backlight"@.len() == 9);
            assert("leds"@.len() == 4);
        }
        if equal(parent, "backlight") {
            Some(Subsystem::Backlight)
        } else if equal(parent, "leds") {
            Some(Subsystem::Leds)
        } else {
            None
        }
    }
}

/// A backlight in the file system: its limits, what is known of its value,
/// and the ways in which it can be written.
#[derive(Debug, PartialEq, Eq, Clone, Copy, Structural)]
pub struct Backlight {
    pub min_brightness: u64,
    pub max_brightness: u64,
    pub current: Option<u64>,
    pub has_dbus: bool,
    pub has_write_permission: bool,
    pub pending_dbus_write: bool,
}

impl Backlight {
    /// A backlight of which no value is known yet.
    pub fn new(
        min_brightness: u64,
        max_brightness: u64,
        has_write_permission: bool,
        has_dbus: bool,
    ) -> (backlight: Self)
        ensures
            backlight == (Backlight {
                min_brightness,
                max_brightness,
                current: None,
                has_dbus,
                has_write_permission,
                pending_dbus_write: false,
            }),
    {
        Self {
            min_brightness,
            max_brightness,
            current: None,
            has_dbus,
            has_write_permission,
            pending_dbus_write: false,
        }
    }

    /// How the brightness is had after `events`, and the state then.
    pub open spec fn spec_get(self, events: Events) -> (Backlight, Reading) {
        match (events, self.current) {
            (_, None) => (self, Reading::File),
            (Events::Read { changed }, Some(cached)) => {
                if self.pending_dbus_write || !changed {
                    (Backlight { pending_dbus_write: false, ..self }, Reading::Cached(cached))
                } else {
                    (self, Reading::File)
                }
            },
            (Events::WouldBlock, Some(cached)) => (self, Reading::Cached(cached)),
            (Events::Failed, Some(_)) => (self, Reading::Failed),
        }
    }

    /// Decides how the brightness is to be had. The file is read where no
    /// value is known, and where a file changed by another hand than this
    /// one's own request to the session manager.
    pub fn get(&mut self, events: Events) -> (reading: Reading)
        ensures
            (*final(self), reading) == old(self).spec_get(events),
    {
        match self.current {
            None => Reading::File,
            Some(cached) => match events {
                Events::Read { changed } => {
                    if self.pending_dbus_write || !changed {
                        self.pending_dbus_write = false;
                        Reading::Cached(cached)
                    } else {
                        Reading::File
                    }
                },
                Events::WouldBlock => Reading::Cached(cached),
                Events::Failed => Reading::Failed,
            },
        }
    }

    /// Notes the value that was read from the brightness file.
    pub fn update(&mut self, value: u64)
        ensures
            *final(self) == (Backlight { current: Some(value), ..*old(self) }),
    {
        self.current = Some(value);
    }

    /// How a request of `value` is written: the nearest value within the
    /// limits, into the file where that is permitted, and through the
    /// session manager where it is not. The session manager takes 32 bits;
    /// a value that does not fit them is not written at all.
    pub open spec fn spec_set(&self, value: u64) -> Writing {
        let clamped = spec_clamp(value, self.min_brightness, self.max_brightness);
        if self.has_write_permission {
            Writing::File(clamped)
        } else if self.has_dbus && clamped <= u32::MAX {
            Writing::Dbus(clamped as u32)
        } else {
            Writing::Denied
        }
    }

    /// Decides how a request of `value` is written. What is written lies
    /// within the limits, whichever way it goes.
    pub fn set(&self, value: u64) -> (writing: Writing)
        requires
            self.min_brightness <= self.max_brightness,
        ensures
            writing == self.spec_set(value),
            writing matches Writing::File(written) ==> self.min_brightness <= written
                <= self.max_brightness,
            writing matches Writing::Dbus(written) ==> self.min_brightness <= written
                <= self.max_brightness,
    {
        let clamped = clamp(value, self.min_brightness, self.max_brightness);
        if self.has_write_permission {
            Writing::File(clamped)
        } else if self.has_dbus && clamped <= 0xffff_ffff {
            Writing::Dbus(clamped as u32)
        } else {
            Writing::Denied
        }
    }

    /// The state after a write went through, and what the write returns
    /// once the watched files were looked at.
    pub open spec fn spec_written(self, value: u64, events: Events) -> (Backlight, Option<u64>) {
        let clamped = spec_clamp(value, self.min_brightness, self.max_brightness);
        (
            Backlight {
                current: Some(clamped),
                pending_dbus_write: self.pending_dbus_write || !self.has_write_permission,
                ..self
            },
            if events == Events::Failed {
                None
            } else {
                Some(clamped)
            },
        )
    }

    /// Notes that the request of `value` was written. `events` is a look
    /// at the watched files after the write, which takes away what the
    /// write itself caused; the write counts as failed where the look did.
    pub fn written(&mut self, value: u64, events: Events) -> (accepted: Option<u64>)
        requires
            old(self).min_brightness <= old(self).max_brightness,
            old(self).spec_set(value) !is Denied,
        ensures
            (*final(self), accepted) == old(self).spec_written(value, events),
    {
        let clamped = clamp(value, self.min_brightness, self.max_brightness);
        if !self.has_write_permission {
            self.pending_dbus_write = true;
        }
        self.current = Some(clamped);
        match events {
            Events::Failed => None,
            _ => Some(clamped),
        }
    }
}

} // verus!
