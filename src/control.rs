//! Command vocabulary of the input modules: the values that select a
//! command, a pattern, a game and its parameters.

use vstd::prelude::*;

verus! {

/// All available commands, by command byte.
#[derive(Clone, Copy, Debug, PartialEq, Eq, Structural)]
pub enum CommandVals {
    Brightness,
    Pattern,
    BootloaderReset,
    Sleep,
    Animate,
    Panic,
    Draw,
    StageGreyCol,
    DrawGreyColBuffer,
    SetText,
    StartGame,
    GameControl,
    GameStatus,
    SetColor,
    DisplayOn,
    InvertScreen,
    SetPixelColumn,
    FlushFramebuffer,
    ClearRam,
    ScreenSaver,
    SetFps,
    SetPowerMode,
    AnimationPeriod,
    PwmFreq,
    DebugMode,
    Version,
}

/// The byte that selects each command.
pub open spec fn command_byte(c: CommandVals) -> u8 {
    match c {
        CommandVals::Brightness => 0x00,
        CommandVals::Pattern => 0x01,
        CommandVals::BootloaderReset => 0x02,
        CommandVals::Sleep => 0x03,
        CommandVals::Animate => 0x04,
        CommandVals::Panic => 0x05,
        CommandVals::Draw => 0x06,
        CommandVals::StageGreyCol => 0x07,
        CommandVals::DrawGreyColBuffer => 0x08,
        CommandVals::SetText => 0x09,
        CommandVals::StartGame => 0x10,
        CommandVals::GameControl => 0x11,
        CommandVals::GameStatus => 0x12,
        CommandVals::SetColor => 0x13,
        CommandVals::DisplayOn => 0x14,
        CommandVals::InvertScreen => 0x15,
        CommandVals::SetPixelColumn => 0x16,
        CommandVals::FlushFramebuffer => 0x17,
        CommandVals::ClearRam => 0x18,
        CommandVals::ScreenSaver => 0x19,
        CommandVals::SetFps => 0x1A,
        CommandVals::SetPowerMode => 0x1B,
        CommandVals::AnimationPeriod => 0x1C,
        CommandVals::PwmFreq => 0x1E,
        CommandVals::DebugMode => 0x1F,
        CommandVals::Version => 0x20,
    }
}

impl CommandVals {
    /// The command selected by byte `v`, if any.
    pub fn from_u8(v: u8) -> (r: Option<CommandVals>)
        ensures
            r matches Some(c) ==> command_byte(c) == v,
            r is None ==> forall|c: CommandVals| command_byte(c) != v,
    {
        match v {
            0x00 => Some(CommandVals::Brightness),
            0x01 => Some(CommandVals::Pattern),
            0x02 => Some(CommandVals::BootloaderReset),
            0x03 => Some(CommandVals::Sleep),
            0x04 => Some(CommandVals::Animate),
            0x05 => Some(CommandVals::Panic),
            0x06 => Some(CommandVals::Draw),
            0x07 => Some(CommandVals::StageGreyCol),
            0x08 => Some(CommandVals::DrawGreyColBuffer),
            0x09 => Some(CommandVals::SetText),
            0x10 => Some(CommandVals::StartGame),
            0x11 => Some(CommandVals::GameControl),
            0x12 => Some(CommandVals::GameStatus),
            0x13 => Some(CommandVals::SetColor),
            0x14 => Some(CommandVals::DisplayOn),
            0x15 => Some(CommandVals::InvertScreen),
            0x16 => Some(CommandVals::SetPixelColumn),
            0x17 => Some(CommandVals::FlushFramebuffer),
            0x18 => Some(CommandVals::ClearRam),
            0x19 => Some(CommandVals::ScreenSaver),
            0x1A => Some(CommandVals::SetFps),
            0x1B => Some(CommandVals::SetPowerMode),
            0x1C => Some(CommandVals::AnimationPeriod),
            0x1E => Some(CommandVals::PwmFreq),
            0x1F => Some(CommandVals::DebugMode),
            0x20 => Some(CommandVals::Version),
            _ => None,
        }
    }
}

/// Built-in patterns, by pattern byte.
#[derive(Clone, Copy, Debug, PartialEq, Eq, Structural)]
pub enum PatternVals {
    Percentage,
    Gradient,
    DoubleGradient,
    DisplayLotus,
    ZigZag,
    FullBrightness,
    DisplayPanic,
    DisplayLotus2,
}

/// The byte that selects each built-in pattern.
pub open spec fn pattern_byte(p: PatternVals) -> u8 {
    match p {
        PatternVals::Percentage => 0x00,
        PatternVals::Gradient => 0x01,
        PatternVals::DoubleGradient => 0x02,
        PatternVals::DisplayLotus => 0x03,
        PatternVals::ZigZag => 0x04,
        PatternVals::FullBrightness => 0x05,
        PatternVals::DisplayPanic => 0x06,
        PatternVals::DisplayLotus2 => 0x07,
    }
}

impl PatternVals {
    /// The built-in pattern selected by byte `v`, if any.
    pub fn from_u8(v: u8) -> (r: Option<PatternVals>)
        ensures
            r matches Some(p) ==> pattern_byte(p) == v,
            r is None <==> v > 0x07,
    {
        match v {
            0x00 => Some(PatternVals::Percentage),
            0x01 => Some(PatternVals::Gradient),
            0x02 => Some(PatternVals::DoubleGradient),
            0x03 => Some(PatternVals::DisplayLotus),
            0x04 => Some(PatternVals::ZigZag),
            0x05 => Some(PatternVals::FullBrightness),
            0x06 => Some(PatternVals::DisplayPanic),
            0x07 => Some(PatternVals::DisplayLotus2),
            _ => None,
        }
    }
}

/// A game with its start parameter.
#[derive(Clone, Copy, Debug, PartialEq, Eq, Structural)]
pub enum Game {
    Snake,
    Pong,
    Tetris,
    GameOfLife(GameOfLifeStartParam),
}

/// Games, by game byte.
#[derive(Clone, Copy, Debug, PartialEq, Eq, Structural)]
pub enum GameVal {
    Snake,
    Pong,
    Tetris,
    GameOfLife,
}

/// The byte that selects each game.
pub open spec fn game_byte(g: GameVal) -> u8 {
    match g {
        GameVal::Snake => 0,
        GameVal::Pong => 1,
        GameVal::Tetris => 2,
        GameVal::GameOfLife => 3,
    }
}

impl GameVal {
    /// The game selected by byte `v`, if any.
    pub fn from_u8(v: u8) -> (r: Option<GameVal>)
        ensures
            r matches Some(g) ==> game_byte(g) == v,
            r is None <==> v > 3,
    {
        match v {
            0 => Some(GameVal::Snake),
            1 => Some(GameVal::Pong),
            2 => Some(GameVal::Tetris),
            3 => Some(GameVal::GameOfLife),
            _ => None,
        }
    }
}

/// Controls sent to a running game.
#[derive(Clone, Copy, Debug, PartialEq, Eq, Structural)]
pub enum GameControlArg {
    Up,
    Down,
    Left,
    Right,
    Exit,
    SecondLeft,
    SecondRight,
}

/// The byte that selects each game control.
pub open spec fn control_byte(a: GameControlArg) -> u8 {
    match a {
        GameControlArg::Up => 0,
        GameControlArg::Down => 1,
        GameControlArg::Left => 2,
        GameControlArg::Right => 3,
        GameControlArg::Exit => 4,
        GameControlArg::SecondLeft => 5,
        GameControlArg::SecondRight => 6,
    }
}

impl GameControlArg {
    /// The control selected by byte `v`, if any.
    pub fn from_u8(v: u8) -> (r: Option<GameControlArg>)
        ensures
            r matches Some(a) ==> control_byte(a) == v,
            r is None <==> v > 6,
    {
        match v {
            0 => Some(GameControlArg::Up),
            1 => Some(GameControlArg::Down),
            2 => Some(GameControlArg::Left),
            3 => Some(GameControlArg::Right),
            4 => Some(GameControlArg::Exit),
            5 => Some(GameControlArg::SecondLeft),
            6 => Some(GameControlArg::SecondRight),
            _ => None,
        }
    }
}

/// How the game of life starts.
#[derive(Clone, Copy, Debug, PartialEq, Eq, Structural)]
pub enum GameOfLifeStartParam {
    CurrentMatrix,
    Pattern1,
    Blinker,
    Toad,
    Beacon,
    Glider,
    BeaconToadBlinker,
}

/// The byte that selects each start parameter.
pub open spec fn start_param_byte(p: GameOfLifeStartParam) -> u8 {
    match p {
        GameOfLifeStartParam::CurrentMatrix => 0x00,
        GameOfLifeStartParam::Pattern1 => 0x01,
        GameOfLifeStartParam::Blinker => 0x02,
        GameOfLifeStartParam::Toad => 0x03,
        GameOfLifeStartParam::Beacon => 0x04,
        GameOfLifeStartParam::Glider => 0x05,
        GameOfLifeStartParam::BeaconToadBlinker => 0x06,
    }
}

impl GameOfLifeStartParam {
    /// The start parameter selected by byte `v`, if any.
    pub fn from_u8(v: u8) -> (r: Option<GameOfLifeStartParam>)
        ensures
            r matches Some(p) ==> start_param_byte(p) == v,
            r is None <==> v > 0x06,
    {
        match v {
            0x00 => Some(GameOfLifeStartParam::CurrentMatrix),
            0x01 => Some(GameOfLifeStartParam::Pattern1),
            0x02 => Some(GameOfLifeStartParam::Blinker),
            0x03 => Some(GameOfLifeStartParam::Toad),
            0x04 => Some(GameOfLifeStartParam::Beacon),
            0x05 => Some(GameOfLifeStartParam::Glider),
            0x06 => Some(GameOfLifeStartParam::BeaconToadBlinker),
            _ => None,
        }
    }
}

/// Display power mode.
#[derive(Clone, Copy, Debug, PartialEq, Eq, Structural)]
pub enum DisplayMode {
    /// Low power mode.
    Lpm,
    /// High power mode.
    Hpm,
}

impl DisplayMode {
    /// The mode selected by byte `v`, if any.
    pub fn from_u8(v: u8) -> (r: Option<DisplayMode>)
        ensures
            v == 0 ==> r == Some(DisplayMode::Lpm),
            v == 1 ==> r == Some(DisplayMode::Hpm),
            v > 1 ==> r is None,
    {
        match v {
            0x00 => Some(DisplayMode::Lpm),
            0x01 => Some(DisplayMode::Hpm),
            _ => None,
        }
    }
}

/// LED PWM frequency setting.
#[derive(Clone, Copy, Debug, PartialEq, Eq, Structural)]
pub enum PwmFreqArg {
    /// 29 kHz.
    P29k,
    /// 3.6 kHz.
    P3k6,
    /// 1.8 kHz.
    P1k8,
    /// 900 Hz.
    P900,
}

/// The byte that selects each PWM frequency.
pub open spec fn pwm_freq_byte(p: PwmFreqArg) -> u8 {
    match p {
        PwmFreqArg::P29k => 0,
        PwmFreqArg::P3k6 => 1,
        PwmFreqArg::P1k8 => 2,
        PwmFreqArg::P900 => 3,
    }
}

impl PwmFreqArg {
    /// The frequency selected by byte `v`, if any.
    pub fn from_u8(v: u8) -> (r: Option<PwmFreqArg>)
        ensures
            r matches Some(p) ==> pwm_freq_byte(p) == v,
            r is None <==> v > 3,
    {
        match v {
            0x00 => Some(PwmFreqArg::P29k),
            0x01 => Some(PwmFreqArg::P3k6),
            0x02 => Some(PwmFreqArg::P1k8),
            0x03 => Some(PwmFreqArg::P900),
            _ => None,
        }
    }
}

/// Whether a module without a frame buffer to restore is asleep.
#[derive(Clone, Copy, Debug, PartialEq, Eq, Structural)]
pub enum SimpleSleepState {
    Awake,
    Sleeping,
}

/// Direction in which the screen saver moves.
#[derive(Clone, Copy, Debug, PartialEq, Eq, Structural)]
pub struct ScreenSaverState {
    pub rightwards: i32,
    pub downwards: i32,
}

impl Default for ScreenSaverState {
    fn default() -> (r: Self)
        ensures
            r.rightwards == 1 && r.downwards == 1,
    {
        ScreenSaverState { rightwards: 1, downwards: 1 }
    }
}

} // verus!
