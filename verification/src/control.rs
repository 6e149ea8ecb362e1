use vstd::prelude::*;

verus! {

/// Shortest sampling interval, in milliseconds.
pub const MIN_INTERVAL_MS: u64 = 100;

/// Longest sampling interval, in milliseconds.
pub const MAX_INTERVAL_MS: u64 = 5000;

/// Amount by which one speed key changes the interval, in milliseconds.
pub const INTERVAL_STEP_MS: u64 = 100;

/// The run-time parameters a user can tune from the keyboard.
#[derive(Clone, Copy, Debug, PartialEq, Eq, Structural)]
pub struct DashboardConfig {
    pub interval_ms: u64,
    pub log_lines: u32,
    pub color_mode: u8,
}

/// What a key press asks for.
#[derive(Clone, Copy, Debug, PartialEq, Eq, Structural)]
pub enum Command {
    SpeedUp,
    SlowDown,
    MoreLogs,
    FewerLogs,
    Quit,
    Ignore,
}

/// What the loop has to do after a key press has been applied.
#[derive(Clone, Copy, Debug, PartialEq, Eq, Structural)]
pub enum Action {
    /// Go on with the next tick.
    Continue,
    /// Clear the whole screen, then go on with the next tick.
    ClearScreen,
    /// Leave the loop.
    Exit,
}

/// How the footer shows the interval.
#[derive(Clone, Copy, Debug, PartialEq, Eq, Structural)]
pub enum SpeedLabel {
    Millis(u64),
    Seconds(u64),
}

/// The command bound to a key.
pub open spec fn command_of(key: char) -> Command {
    if key == 'q' {
        Command::Quit
    } else if key == '+' {
        Command::SpeedUp
    } else if key == '-' {
        Command::SlowDown
    } else if key == '.' {
        Command::MoreLogs
    } else if key == ',' {
        Command::FewerLogs
    } else {
        Command::Ignore
    }
}

/// The interval after one speed-up: one step shorter, never under the floor.
pub open spec fn faster(interval_ms: u64) -> u64 {
    if interval_ms >= MIN_INTERVAL_MS + INTERVAL_STEP_MS {
        (interval_ms - INTERVAL_STEP_MS) as u64
    } else {
        MIN_INTERVAL_MS
    }
}

/// The interval after one slow-down: one step longer, never over the ceiling.
pub open spec fn slower(interval_ms: u64) -> u64 {
    if interval_ms + INTERVAL_STEP_MS <= MAX_INTERVAL_MS {
        (interval_ms + INTERVAL_STEP_MS) as u64
    } else {
        MAX_INTERVAL_MS
    }
}

/// The configuration after `cmd` has been applied to `c`.
pub open spec fn next_config(c: DashboardConfig, cmd: Command) -> DashboardConfig {
    match cmd {
        Command::SpeedUp => DashboardConfig { interval_ms: faster(c.interval_ms), ..c },
        Command::SlowDown => DashboardConfig { interval_ms: slower(c.interval_ms), ..c },
        Command::MoreLogs => if c.log_lines < u32::MAX {
            DashboardConfig { log_lines: (c.log_lines + 1) as u32, ..c }
        } else {
            c
        },
        Command::FewerLogs => if c.log_lines > 1 {
            DashboardConfig { log_lines: (c.log_lines - 1) as u32, ..c }
        } else {
            c
        },
        Command::Quit => c,
        Command::Ignore => c,
    }
}

/// What the loop does after `cmd` has been applied to `c`: it exits on
/// quit, and clears the screen exactly when the number of log lines changed.
pub open spec fn action_of(c: DashboardConfig, cmd: Command) -> Action {
    match cmd {
        Command::Quit => Action::Exit,
        Command::MoreLogs | Command::FewerLogs => if next_config(c, cmd).log_lines
            != c.log_lines {
            Action::ClearScreen
        } else {
            Action::Continue
        },
        _ => Action::Continue,
    }
}

/// The configuration after the commands `cmds` have been applied in order.
pub open spec fn config_after(c: DashboardConfig, cmds: Seq<Command>) -> DashboardConfig
    decreases cmds.len(),
{
    if cmds.len() == 0 {
        c
    } else {
        next_config(config_after(c, cmds.drop_last()), cmds.last())
    }
}

impl DashboardConfig {
    /// The configuration the dashboard starts with.
    pub fn new() -> (c: Self)
        ensures
            c == (DashboardConfig { interval_ms: 1000, log_lines: 10, color_mode: 1 }),
    {
        DashboardConfig { interval_ms: 1000, log_lines: 10, color_mode: 1 }
    }

    /// Applies one command and says what the loop has to do next.
    pub fn apply(&mut self, cmd: Command) -> (action: Action)
        ensures
            *final(self) == next_config(*old(self), cmd),
            action == action_of(*old(self), cmd),
    {
        match cmd {
            Command::SpeedUp => {
                self.interval_ms = if self.interval_ms >= MIN_INTERVAL_MS + INTERVAL_STEP_MS {
                    self.interval_ms - INTERVAL_STEP_MS
                } else {
                    MIN_INTERVAL_MS
                };
                Action::Continue
            },
            Command::SlowDown => {
                self.interval_ms = if self.interval_ms <= MAX_INTERVAL_MS - INTERVAL_STEP_MS {
                    self.interval_ms + INTERVAL_STEP_MS
                } else {
                    MAX_INTERVAL_MS
                };
                Action::Continue
            },
            Command::MoreLogs => {
                if self.log_lines < u32::MAX {
                    self.log_lines = self.log_lines + 1;
                    Action::ClearScreen
                } else {
                    Action::Continue
                }
            },
            Command::FewerLogs => {
                if self.log_lines > 1 {
                    self.log_lines = self.log_lines - 1;
                    Action::ClearScreen
                } else {
                    Action::Continue
                }
            },
            Command::Quit => Action::Exit,
            Command::Ignore => Action::Continue,
        }
    }

    /// Applies the command bound to `key`; any unbound key changes nothing.
    pub fn on_key(&mut self, key: char) -> (action: Action)
        ensures
            *final(self) == next_config(*old(self), command_of(key)),
            action == action_of(*old(self), command_of(key)),
    {
        let cmd: Command = command_for(key);
        self.apply(cmd)
    }

    /// The interval as the footer shows it: in milliseconds under one
    /// second, in whole seconds from there on.
    pub fn speed_label(&self) -> (label: SpeedLabel)
        ensures
            label == if self.interval_ms < 1000 {
                SpeedLabel::Millis(self.interval_ms)
            } else {
                SpeedLabel::Seconds(self.interval_ms / 1000)
            },
    {
        if self.interval_ms < 1000 {
            SpeedLabel::Millis(self.interval_ms)
        } else {
            SpeedLabel::Seconds(self.interval_ms / 1000)
        }
    }
}

/// The command bound to a key.
pub fn command_for(key: char) -> (cmd: Command)
    ensures
        cmd == command_of(key),
{
    if key == 'q' {
        Command::Quit
    } else if key == '+' {
        Command::SpeedUp
    } else if key == '-' {
        Command::SlowDown
    } else if key == '.' {
        Command::MoreLogs
    } else if key == ',' {
        Command::FewerLogs
    } else {
        Command::Ignore
    }
}

/// A speed key never takes the interval under the floor, and never over
/// the ceiling unless it was over it before.
pub proof fn lemma_speed_clamped(c: DashboardConfig, cmd: Command)
    requires
        cmd == Command::SpeedUp || cmd == Command::SlowDown,
    ensures
        MIN_INTERVAL_MS <= next_config(c, cmd).interval_ms,
        c.interval_ms <= MAX_INTERVAL_MS || cmd == Command::SlowDown ==> next_config(
            c,
            cmd,
        ).interval_ms <= MAX_INTERVAL_MS,
{
}

/// Once the interval lies between the floor and the ceiling and the number
/// of log lines is at least 1, no sequence of commands takes either out of
/// its range.
pub proof fn lemma_config_stays_in_range(c: DashboardConfig, cmds: Seq<Command>)
    requires
        MIN_INTERVAL_MS <= c.interval_ms <= MAX_INTERVAL_MS,
        c.log_lines >= 1,
    ensures
        MIN_INTERVAL_MS <= config_after(c, cmds).interval_ms <= MAX_INTERVAL_MS,
        config_after(c, cmds).log_lines >= 1,
    decreases cmds.len(),
{
    if cmds.len() > 0 {
        lemma_config_stays_in_range(c, cmds.drop_last());
    }
}

/// Speeding up at the floor leaves the interval at the floor.
pub proof fn lemma_floor_is_fixed(c: DashboardConfig)
    requires
        c.interval_ms <= MIN_INTERVAL_MS,
    ensures
        next_config(c, Command::SpeedUp).interval_ms == MIN_INTERVAL_MS,
{
}

} // verus!
