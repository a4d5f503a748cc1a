//! Reading an i3/sway-style configuration text.
//!
//! The text is read line by line. Blank lines and lines starting with `#`
//! are skipped; a line that cannot be read leaves the configuration as it
//! was and yields a warning.
use crate::config::{
    bind, eq_word_ci, expand, is_word_ci, lookup, AccelProfile, BackgroundConfig, BorderConfig, Command,
    Config, ConfigView, Direction, GapConfig, InputConfig, Keybinding, Keysym, LayoutCommand,
    ModifiersState, Orientation, OutputConfig, ScratchpadCommand, ScrollMethod, SplitType, TapButtonMap,
    VirtualOutputConfig, VirtualOutputConfigView, VirtualOutputRegion, WorkspaceTarget,
};
use crate::text::{
    concat_str, chars_of, eq_chars, eq_str, fields, is_ws, join, join_from, lines, parse_decimal,
    parse_decimal_chars, parse_i32, parse_int, parse_u32, parse_usize, slice, split_char,
    split_lines, split_whitespace, starts_with, string_of, trim, trim_chars, trim_end, trim_start,
    trim_start_chars, words_acc,
    views, words, Decimal,
};
use vstd::prelude::*;

verus! {

/// Why a configuration line could not be read; where a word of the line
/// was at fault, the error carries it.
#[derive(Debug, Clone, PartialEq, Eq)]
pub enum ConfigError<S = String> {
    EmptyLine,
    SetNeedsNameAndValue,
    BindsymNeedsKeyAndCommand,
    ExecNeedsCommand,
    UnknownVariable(S),
    UnknownModifier(S),
    UnknownKey(S),
    EmptyCommand,
    FocusNeedsDirection,
    MoveNeedsArgument,
    UnknownDirection(S),
    LayoutNeedsArgument,
    UnknownLayoutToggle,
    UnknownLayout(S),
    WorkspaceTargetRequired,
    OutputNeedsName,
    InvalidScale(S),
    ScaleOutOfRange,
    InvalidResolution(S),
    InvalidWidth(S),
    InvalidHeight(S),
    InvalidPosition(S),
    InvalidX(S),
    InvalidY(S),
    InvalidTransform(S),
    InvalidSplitCount(S),
    SplitCountOutOfRange,
    InvalidGridRows(S),
    InvalidGridColumns(S),
    GridOutOfRange,
    InvalidSplitType(S),
    UnknownOutputParameter(S),
    VirtualOutputNeedsNameAndOutputs,
    VirtualOutputNeedsOutputsKeyword,
    RegionFormat,
    InvalidRegionX(S),
    InvalidRegionY(S),
    InvalidRegionWidth(S),
    InvalidRegionHeight(S),
    InvalidInteger(S),
    InvalidFloat(S),
    MissingInputBrace,
    GridFormat(S),
    InvalidMergeDirection(S),
    FocusFollowsMouseNeedsValue,
    InputBracesCrossed,
}

/// An error as the contracts speak of it: its word as a sequence of characters.
pub type ConfigErrorView = ConfigError<Seq<char>>;

impl View for ConfigError<String> {
    type V = ConfigErrorView;

    open spec fn view(&self) -> ConfigErrorView {
        match self {
            ConfigError::EmptyLine => ConfigError::EmptyLine,
            ConfigError::SetNeedsNameAndValue => ConfigError::SetNeedsNameAndValue,
            ConfigError::BindsymNeedsKeyAndCommand => ConfigError::BindsymNeedsKeyAndCommand,
            ConfigError::ExecNeedsCommand => ConfigError::ExecNeedsCommand,
            ConfigError::UnknownVariable(w) => ConfigError::UnknownVariable(w@),
            ConfigError::UnknownModifier(w) => ConfigError::UnknownModifier(w@),
            ConfigError::UnknownKey(w) => ConfigError::UnknownKey(w@),
            ConfigError::EmptyCommand => ConfigError::EmptyCommand,
            ConfigError::FocusNeedsDirection => ConfigError::FocusNeedsDirection,
            ConfigError::MoveNeedsArgument => ConfigError::MoveNeedsArgument,
            ConfigError::UnknownDirection(w) => ConfigError::UnknownDirection(w@),
            ConfigError::LayoutNeedsArgument => ConfigError::LayoutNeedsArgument,
            ConfigError::UnknownLayoutToggle => ConfigError::UnknownLayoutToggle,
            ConfigError::UnknownLayout(w) => ConfigError::UnknownLayout(w@),
            ConfigError::WorkspaceTargetRequired => ConfigError::WorkspaceTargetRequired,
            ConfigError::OutputNeedsName => ConfigError::OutputNeedsName,
            ConfigError::InvalidScale(w) => ConfigError::InvalidScale(w@),
            ConfigError::ScaleOutOfRange => ConfigError::ScaleOutOfRange,
            ConfigError::InvalidResolution(w) => ConfigError::InvalidResolution(w@),
            ConfigError::InvalidWidth(w) => ConfigError::InvalidWidth(w@),
            ConfigError::InvalidHeight(w) => ConfigError::InvalidHeight(w@),
            ConfigError::InvalidPosition(w) => ConfigError::InvalidPosition(w@),
            ConfigError::InvalidX(w) => ConfigError::InvalidX(w@),
            ConfigError::InvalidY(w) => ConfigError::InvalidY(w@),
            ConfigError::InvalidTransform(w) => ConfigError::InvalidTransform(w@),
            ConfigError::InvalidSplitCount(w) => ConfigError::InvalidSplitCount(w@),
            ConfigError::SplitCountOutOfRange => ConfigError::SplitCountOutOfRange,
            ConfigError::InvalidGridRows(w) => ConfigError::InvalidGridRows(w@),
            ConfigError::InvalidGridColumns(w) => ConfigError::InvalidGridColumns(w@),
            ConfigError::GridOutOfRange => ConfigError::GridOutOfRange,
            ConfigError::InvalidSplitType(w) => ConfigError::InvalidSplitType(w@),
            ConfigError::UnknownOutputParameter(w) => ConfigError::UnknownOutputParameter(w@),
            ConfigError::VirtualOutputNeedsNameAndOutputs => ConfigError::VirtualOutputNeedsNameAndOutputs,
            ConfigError::VirtualOutputNeedsOutputsKeyword => ConfigError::VirtualOutputNeedsOutputsKeyword,
            ConfigError::RegionFormat => ConfigError::RegionFormat,
            ConfigError::InvalidRegionX(w) => ConfigError::InvalidRegionX(w@),
            ConfigError::InvalidRegionY(w) => ConfigError::InvalidRegionY(w@),
            ConfigError::InvalidRegionWidth(w) => ConfigError::InvalidRegionWidth(w@),
            ConfigError::InvalidRegionHeight(w) => ConfigError::InvalidRegionHeight(w@),
            ConfigError::InvalidInteger(w) => ConfigError::InvalidInteger(w@),
            ConfigError::InvalidFloat(w) => ConfigError::InvalidFloat(w@),
            ConfigError::MissingInputBrace => ConfigError::MissingInputBrace,
            ConfigError::GridFormat(w) => ConfigError::GridFormat(w@),
            ConfigError::InvalidMergeDirection(w) => ConfigError::InvalidMergeDirection(w@),
            ConfigError::FocusFollowsMouseNeedsValue => ConfigError::FocusFollowsMouseNeedsValue,
            ConfigError::InputBracesCrossed => ConfigError::InputBracesCrossed,
        }
    }
}

/// What an error says, in words, the word at fault included.
pub open spec fn config_error_text(e: ConfigErrorView) -> Seq<char> {
    match e {
        ConfigError::EmptyLine => "Empty command line"@,
        ConfigError::SetNeedsNameAndValue => "set requires variable name and value"@,
        ConfigError::BindsymNeedsKeyAndCommand => "bindsym requires key combination and command"@,
        ConfigError::ExecNeedsCommand => "exec requires a command"@,
        ConfigError::UnknownVariable(w) => "Unknown variable: "@ + w,
        ConfigError::UnknownModifier(w) => "Unknown modifier: "@ + w,
        ConfigError::UnknownKey(w) => "Unknown key: "@ + w,
        ConfigError::EmptyCommand => "Empty command"@,
        ConfigError::FocusNeedsDirection => "focus requires direction"@,
        ConfigError::MoveNeedsArgument => "move requires argument"@,
        ConfigError::UnknownDirection(w) => "Unknown direction: "@ + w,
        ConfigError::LayoutNeedsArgument => "layout requires argument"@,
        ConfigError::UnknownLayoutToggle => "Unknown layout toggle command"@,
        ConfigError::UnknownLayout(w) => "Unknown layout: "@ + w,
        ConfigError::WorkspaceTargetRequired => "Workspace target required"@,
        ConfigError::OutputNeedsName => "output requires at least a name"@,
        ConfigError::InvalidScale(w) => "Invalid scale value: "@ + w,
        ConfigError::ScaleOutOfRange => "Scale must be between 0.5 and 4.0"@,
        ConfigError::InvalidResolution(w) => "Invalid resolution format: "@ + w,
        ConfigError::InvalidWidth(w) => "Invalid width: "@ + w,
        ConfigError::InvalidHeight(w) => "Invalid height: "@ + w,
        ConfigError::InvalidPosition(w) => "Invalid position format: "@ + w,
        ConfigError::InvalidX(w) => "Invalid x position: "@ + w,
        ConfigError::InvalidY(w) => "Invalid y position: "@ + w,
        ConfigError::InvalidTransform(w) => "Invalid transform value: "@ + w + ". Valid values are: normal, 90, 180, 270, flipped, flipped-90, flipped-180, flipped-270"@,
        ConfigError::InvalidSplitCount(w) => "Invalid split count: "@ + w,
        ConfigError::SplitCountOutOfRange => "Split count must be between 2 and 10"@,
        ConfigError::InvalidGridRows(w) => "Invalid grid rows: "@ + w,
        ConfigError::InvalidGridColumns(w) => "Invalid grid columns: "@ + w,
        ConfigError::GridOutOfRange => "Grid dimensions must be between 1 and 5"@,
        ConfigError::InvalidSplitType(w) => "Invalid split type: "@ + w,
        ConfigError::UnknownOutputParameter(w) => "Unknown output parameter: "@ + w,
        ConfigError::VirtualOutputNeedsNameAndOutputs => "virtual_output requires name and outputs list"@,
        ConfigError::VirtualOutputNeedsOutputsKeyword => "virtual_output second parameter must be 'outputs'"@,
        ConfigError::RegionFormat => "region requires x,y,width,height format"@,
        ConfigError::InvalidRegionX(w) => "Invalid x coordinate: "@ + w,
        ConfigError::InvalidRegionY(w) => "Invalid y coordinate: "@ + w,
        ConfigError::InvalidRegionWidth(w) => "Invalid width: "@ + w,
        ConfigError::InvalidRegionHeight(w) => "Invalid height: "@ + w,
        ConfigError::InvalidInteger(w) => "Invalid integer: "@ + w,
        ConfigError::InvalidFloat(w) => "Invalid number: "@ + w,
        ConfigError::MissingInputBrace => "Missing opening brace for input block"@,
        ConfigError::GridFormat(w) => "Invalid grid, expected <columns>x<rows>: "@ + w,
        ConfigError::InvalidMergeDirection(w) => "Invalid merge direction, expected horizontal or vertical: "@ + w,
        ConfigError::FocusFollowsMouseNeedsValue => "focus_follows_mouse requires a value"@,
        ConfigError::InputBracesCrossed => "Input block closes before it opens"@,
    }
}

impl ConfigError {
    /// The error as text.
    pub fn to_string(&self) -> (s: String)
        ensures
            s@ == config_error_text(self@),
    {
        match self {
            ConfigError::EmptyLine => "Empty command line".to_owned(),
            ConfigError::SetNeedsNameAndValue => "set requires variable name and value".to_owned(),
            ConfigError::BindsymNeedsKeyAndCommand => "bindsym requires key combination and command".to_owned(),
            ConfigError::ExecNeedsCommand => "exec requires a command".to_owned(),
            ConfigError::UnknownVariable(w) => concat_str("Unknown variable: ".to_owned(), w.as_str()),
            ConfigError::UnknownModifier(w) => concat_str("Unknown modifier: ".to_owned(), w.as_str()),
            ConfigError::UnknownKey(w) => concat_str("Unknown key: ".to_owned(), w.as_str()),
            ConfigError::EmptyCommand => "Empty command".to_owned(),
            ConfigError::FocusNeedsDirection => "focus requires direction".to_owned(),
            ConfigError::MoveNeedsArgument => "move requires argument".to_owned(),
            ConfigError::UnknownDirection(w) => concat_str("Unknown direction: ".to_owned(), w.as_str()),
            ConfigError::LayoutNeedsArgument => "layout requires argument".to_owned(),
            ConfigError::UnknownLayoutToggle => "Unknown layout toggle command".to_owned(),
            ConfigError::UnknownLayout(w) => concat_str("Unknown layout: ".to_owned(), w.as_str()),
            ConfigError::WorkspaceTargetRequired => "Workspace target required".to_owned(),
            ConfigError::OutputNeedsName => "output requires at least a name".to_owned(),
            ConfigError::InvalidScale(w) => concat_str("Invalid scale value: ".to_owned(), w.as_str()),
            ConfigError::ScaleOutOfRange => "Scale must be between 0.5 and 4.0".to_owned(),
            ConfigError::InvalidResolution(w) => concat_str("Invalid resolution format: ".to_owned(), w.as_str()),
            ConfigError::InvalidWidth(w) => concat_str("Invalid width: ".to_owned(), w.as_str()),
            ConfigError::InvalidHeight(w) => concat_str("Invalid height: ".to_owned(), w.as_str()),
            ConfigError::InvalidPosition(w) => concat_str("Invalid position format: ".to_owned(), w.as_str()),
            ConfigError::InvalidX(w) => concat_str("Invalid x position: ".to_owned(), w.as_str()),
            ConfigError::InvalidY(w) => concat_str("Invalid y position: ".to_owned(), w.as_str()),
            ConfigError::InvalidTransform(w) => concat_str(concat_str("Invalid transform value: ".to_owned(), w.as_str()), ". Valid values are: normal, 90, 180, 270, flipped, flipped-90, flipped-180, flipped-270"),
            ConfigError::InvalidSplitCount(w) => concat_str("Invalid split count: ".to_owned(), w.as_str()),
            ConfigError::SplitCountOutOfRange => "Split count must be between 2 and 10".to_owned(),
            ConfigError::InvalidGridRows(w) => concat_str("Invalid grid rows: ".to_owned(), w.as_str()),
            ConfigError::InvalidGridColumns(w) => concat_str("Invalid grid columns: ".to_owned(), w.as_str()),
            ConfigError::GridOutOfRange => "Grid dimensions must be between 1 and 5".to_owned(),
            ConfigError::InvalidSplitType(w) => concat_str("Invalid split type: ".to_owned(), w.as_str()),
            ConfigError::UnknownOutputParameter(w) => concat_str("Unknown output parameter: ".to_owned(), w.as_str()),
            ConfigError::VirtualOutputNeedsNameAndOutputs => "virtual_output requires name and outputs list".to_owned(),
            ConfigError::VirtualOutputNeedsOutputsKeyword => "virtual_output second parameter must be 'outputs'".to_owned(),
            ConfigError::RegionFormat => "region requires x,y,width,height format".to_owned(),
            ConfigError::InvalidRegionX(w) => concat_str("Invalid x coordinate: ".to_owned(), w.as_str()),
            ConfigError::InvalidRegionY(w) => concat_str("Invalid y coordinate: ".to_owned(), w.as_str()),
            ConfigError::InvalidRegionWidth(w) => concat_str("Invalid width: ".to_owned(), w.as_str()),
            ConfigError::InvalidRegionHeight(w) => concat_str("Invalid height: ".to_owned(), w.as_str()),
            ConfigError::InvalidInteger(w) => concat_str("Invalid integer: ".to_owned(), w.as_str()),
            ConfigError::InvalidFloat(w) => concat_str("Invalid number: ".to_owned(), w.as_str()),
            ConfigError::MissingInputBrace => "Missing opening brace for input block".to_owned(),
            ConfigError::GridFormat(w) => concat_str("Invalid grid, expected <columns>x<rows>: ".to_owned(), w.as_str()),
            ConfigError::InvalidMergeDirection(w) => concat_str("Invalid merge direction, expected horizontal or vertical: ".to_owned(), w.as_str()),
            ConfigError::FocusFollowsMouseNeedsValue => "focus_follows_mouse requires a value".to_owned(),
            ConfigError::InputBracesCrossed => "Input block closes before it opens".to_owned(),
        }
    }
}

/// A result with its error taken by its view.
pub open spec fn res_view<T>(r: Result<T, ConfigError>) -> Result<T, ConfigErrorView> {
    match r {
        Ok(v) => Ok(v),
        Err(e) => Err(e@),
    }
}

pub type Parts = Seq<Seq<char>>;

pub open spec fn i32_of(s: Seq<char>) -> Option<int> {
    parse_int(s, i32::MIN as int, i32::MAX as int)
}

pub open spec fn usize_of(s: Seq<char>) -> Option<int> {
    parse_int(s, 0, usize::MAX as int)
}

pub open spec fn u32_of(s: Seq<char>) -> Option<int> {
    parse_int(s, 0, u32::MAX as int)
}

/// `name` without a leading `'$'`.
pub open spec fn strip_dollar(name: Seq<char>) -> Seq<char> {
    if name.len() > 0 && name[0] == '$' {
        name.drop_first()
    } else {
        name
    }
}

// ----- set / exec -----
pub open spec fn spec_parse_set(c: ConfigView, parts: Parts) -> Result<ConfigView, ConfigErrorView> {
    if parts.len() < 2 {
        Err(ConfigError::SetNeedsNameAndValue)
    } else {
        let value = expand(c.variables, join(parts.skip(1), ' '));
        Ok(ConfigView { variables: bind(c.variables, strip_dollar(parts[0]), value), ..c })
    }
}

pub open spec fn spec_parse_exec(c: ConfigView, parts: Parts) -> Result<ConfigView, ConfigErrorView> {
    if parts.len() == 0 {
        Err(ConfigError::ExecNeedsCommand)
    } else {
        Ok(
            ConfigView {
                startup_commands: c.startup_commands.push(expand(c.variables, join(parts, ' '))),
                ..c
            },
        )
    }
}

// ----- keys -----
/// The keysym that a key name in a binding stands for.
pub open spec fn key_for(name: Seq<char>) -> Option<u32> {
    if name.len() == 1 && 'a' <= name[0] <= 'z' {
        Some(name[0] as u32)
    } else if name.len() == 1 && 'A' <= name[0] <= 'Z' {
        Some(((name[0] as u32) + 32) as u32)
    } else if name.len() == 1 && '0' <= name[0] <= '9' {
        Some(name[0] as u32)
    } else if name == "exclam"@ {
        Some(0x31)
    } else if name == "at"@ {
        Some(0x32)
    } else if name == "numbersign"@ {
        Some(0x33)
    } else if name == "dollar"@ {
        Some(0x34)
    } else if name == "percent"@ {
        Some(0x35)
    } else if name == "asciicircum"@ {
        Some(0x36)
    } else if name == "ampersand"@ {
        Some(0x37)
    } else if name == "asterisk"@ {
        Some(0x38)
    } else if name == "parenleft"@ {
        Some(0x39)
    } else if name == "parenright"@ {
        Some(0x30)
    } else if name == "Return"@ || name == "Enter"@ {
        Some(0xff0d)
    } else if name == "space"@ {
        Some(0x20)
    } else if name == "Tab"@ {
        Some(0xff09)
    } else if name == "Escape"@ || name == "Esc"@ {
        Some(0xff1b)
    } else if name == "BackSpace"@ {
        Some(0xff08)
    } else if name == "Delete"@ {
        Some(0xffff)
    } else if name == "Left"@ {
        Some(0xff51)
    } else if name == "Right"@ {
        Some(0xff53)
    } else if name == "Up"@ {
        Some(0xff52)
    } else if name == "Down"@ {
        Some(0xff54)
    } else if name == "Home"@ {
        Some(0xff50)
    } else if name == "End"@ {
        Some(0xff57)
    } else if name == "Page_Up"@ || name == "Prior"@ {
        Some(0xff55)
    } else if name == "Page_Down"@ || name == "Next"@ {
        Some(0xff56)
    } else if name == "F1"@ {
        Some(0xffbe)
    } else if name == "F2"@ {
        Some(0xffbf)
    } else if name == "F3"@ {
        Some(0xffc0)
    } else if name == "F4"@ {
        Some(0xffc1)
    } else if name == "F5"@ {
        Some(0xffc2)
    } else if name == "F6"@ {
        Some(0xffc3)
    } else if name == "F7"@ {
        Some(0xffc4)
    } else if name == "F8"@ {
        Some(0xffc5)
    } else if name == "F9"@ {
        Some(0xffc6)
    } else if name == "F10"@ {
        Some(0xffc7)
    } else if name == "F11"@ {
        Some(0xffc8)
    } else if name == "F12"@ {
        Some(0xffc9)
    } else if name == "Print"@ {
        Some(0xff61)
    } else if name == "XF86AudioMute"@ {
        Some(0x1008ff12)
    } else if name == "XF86AudioRaiseVolume"@ {
        Some(0x1008ff13)
    } else if name == "XF86AudioLowerVolume"@ {
        Some(0x1008ff11)
    } else if name == "XF86AudioPlay"@ {
        Some(0x1008ff14)
    } else if name == "XF86AudioNext"@ {
        Some(0x1008ff17)
    } else if name == "XF86AudioPrev"@ {
        Some(0x1008ff16)
    } else {
        None
    }
}

/// The modifier state `m` with the modifier named by `part` added.
pub open spec fn add_modifier(c: ConfigView, m: ModifiersState, part: Seq<char>) -> Result<
    ModifiersState,
    ConfigErrorView,
> {
    let name = if part.len() > 0 && part[0] == '$' {
        lookup(c.variables, part.drop_first())
    } else {
        Some(part)
    };
    match name {
        None => Err(ConfigError::UnknownVariable(part)),
        Some(n) => if n == "Mod1"@ || n == "Alt"@ {
            Ok(ModifiersState { alt: true, ..m })
        } else if n == "Mod4"@ || n == "Super"@ || n == "Logo"@ {
            Ok(ModifiersState { logo: true, ..m })
        } else if n == "Ctrl"@ || n == "Control"@ {
            Ok(ModifiersState { ctrl: true, ..m })
        } else if n == "Shift"@ {
            Ok(ModifiersState { shift: true, ..m })
        } else {
            Err(ConfigError::UnknownModifier(n))
        },
    }
}

/// The modifiers named by `mods[i..]`, added to `m` in order.
pub open spec fn add_modifiers(c: ConfigView, mods: Parts, i: int, m: ModifiersState) -> Result<
    ModifiersState,
    ConfigErrorView,
>
    decreases mods.len() - i,
{
    if i >= mods.len() {
        Ok(m)
    } else {
        match add_modifier(c, m, mods[i]) {
            Ok(m2) => add_modifiers(c, mods, i + 1, m2),
            Err(e) => Err(e),
        }
    }
}

/// A key combination such as `$mod+Shift+q`: modifiers, then a key, joined
/// by `'+'`.
pub open spec fn spec_parse_key_combo(c: ConfigView, combo: Seq<char>) -> Result<
    (ModifiersState, Keysym),
    ConfigErrorView,
> {
    let ps = fields(combo, '+');
    match add_modifiers(c, ps.drop_last(), 0, crate::config::no_modifiers()) {
        Err(e) => Err(e),
        Ok(m) => match key_for(ps.last()) {
            None => Err(ConfigError::UnknownKey(ps.last())),
            Some(k) => Ok((m, Keysym { raw: k })),
        },
    }
}

// ----- commands -----
pub open spec fn spec_parse_direction(d: Seq<char>) -> Result<Direction, ConfigErrorView> {
    if d == "left"@ {
        Ok(Direction::Left)
    } else if d == "right"@ {
        Ok(Direction::Right)
    } else if d == "up"@ {
        Ok(Direction::Up)
    } else if d == "down"@ {
        Ok(Direction::Down)
    } else {
        Err(ConfigError::UnknownDirection(d))
    }
}

/// The workspace that one word names.
pub open spec fn target_word(f: Seq<char>) -> WorkspaceTarget<Seq<char>> {
    if f == "1"@ {
        WorkspaceTarget::Number(1)
    } else if f == "2"@ {
        WorkspaceTarget::Number(2)
    } else if f == "3"@ {
        WorkspaceTarget::Number(3)
    } else if f == "4"@ {
        WorkspaceTarget::Number(4)
    } else if f == "5"@ {
        WorkspaceTarget::Number(5)
    } else if f == "6"@ {
        WorkspaceTarget::Number(6)
    } else if f == "7"@ {
        WorkspaceTarget::Number(7)
    } else if f == "8"@ {
        WorkspaceTarget::Number(8)
    } else if f == "9"@ {
        WorkspaceTarget::Number(9)
    } else if f == "10"@ {
        WorkspaceTarget::Number(10)
    } else if f == "next"@ || f == "next_on_output"@ {
        WorkspaceTarget::Next
    } else if f == "prev"@ || f == "previous"@ || f == "prev_on_output"@ {
        WorkspaceTarget::Previous
    } else {
        WorkspaceTarget::Name(f)
    }
}

/// The workspace that the words `parts` name: `number N` is read as `N`.
pub open spec fn spec_parse_workspace_target(parts: Parts) -> Result<
    WorkspaceTarget<Seq<char>>,
    ConfigErrorView,
> {
    if parts.len() == 0 {
        Err(ConfigError::WorkspaceTargetRequired)
    } else if parts[0] == "number"@ && parts.len() >= 2 {
        Ok(target_word(parts[1]))
    } else {
        Ok(target_word(parts[0]))
    }
}

/// The command of a `move ...` binding (`parts[0]` is "move").
pub open spec fn spec_move_command(parts: Parts) -> Result<Command<Seq<char>>, ConfigErrorView> {
    let raw = Command::Raw(join(parts, ' '));
    if parts.len() < 2 {
        Err(ConfigError::MoveNeedsArgument)
    } else {
        let t = parts[1];
        if t == "left"@ || t == "right"@ || t == "up"@ || t == "down"@ {
            match spec_parse_direction(t) {
                Ok(d) => Ok(Command::Move(d)),
                Err(e) => Err(e),
            }
        } else if t == "container"@ || t == "window"@ {
            if parts.len() >= 4 && parts[2] == "to"@ && parts[3] == "workspace"@ {
                match spec_parse_workspace_target(parts.skip(4)) {
                    Ok(w) => Ok(Command::MoveToWorkspace(w)),
                    Err(e) => Err(e),
                }
            } else {
                Ok(raw)
            }
        } else if t == "workspace"@ {
            if parts.len() >= 5 && parts[2] == "to"@ && parts[3] == "output"@ {
                match spec_parse_direction(parts[4]) {
                    Ok(d) => Ok(Command::MoveWorkspaceToOutput(d)),
                    Err(e) => Err(e),
                }
            } else {
                Ok(raw)
            }
        } else if t == "scratchpad"@ {
            Ok(Command::Scratchpad(ScratchpadCommand::Move))
        } else {
            Ok(raw)
        }
    }
}

/// The command of a `layout ...` binding (`parts[0]` is "layout").
pub open spec fn spec_layout_command(parts: Parts) -> Result<Command<Seq<char>>, ConfigErrorView> {
    if parts.len() < 2 {
        Err(ConfigError::LayoutNeedsArgument)
    } else if parts[1] == "stacking"@ {
        Ok(Command::Layout(LayoutCommand::Stacking))
    } else if parts[1] == "tabbed"@ {
        Ok(Command::Layout(LayoutCommand::Tabbed))
    } else if parts[1] == "toggle"@ {
        if parts.len() >= 3 && parts[2] == "split"@ {
            Ok(Command::Layout(LayoutCommand::ToggleSplit))
        } else {
            Err(ConfigError::UnknownLayoutToggle)
        }
    } else {
        Err(ConfigError::UnknownLayout(parts[1]))
    }
}

/// The command that the words `parts` of a binding name.
pub open spec fn spec_parse_command(c: ConfigView, parts: Parts) -> Result<
    Command<Seq<char>>,
    ConfigErrorView,
> {
    let raw = Command::Raw(join(parts, ' '));
    if parts.len() == 0 {
        Err(ConfigError::EmptyCommand)
    } else {
        let f = parts[0];
        if f == "exec"@ {
            Ok(Command::Exec(expand(c.variables, join(parts.skip(1), ' '))))
        } else if f == "kill"@ {
            Ok(Command::Kill)
        } else if f == "reload"@ {
            Ok(Command::Reload)
        } else if f == "exit"@ {
            Ok(Command::Exit)
        } else if f == "debugswapwindows"@ {
            Ok(Command::DebugSwapWindows)
        } else if f == "splith"@ {
            Ok(Command::SplitHorizontal)
        } else if f == "splitv"@ {
            Ok(Command::SplitVertical)
        } else if f == "splitauto"@ {
            Ok(Command::SplitAutomatic)
        } else if f == "movetableft"@ {
            Ok(Command::MoveTabLeft)
        } else if f == "movetabright"@ {
            Ok(Command::MoveTabRight)
        } else if f == "focus"@ {
            if parts.len() < 2 {
                Err(ConfigError::FocusNeedsDirection)
            } else if parts[1] == "mode_toggle"@ {
                Ok(Command::FocusModeToggle)
            } else {
                match spec_parse_direction(parts[1]) {
                    Ok(d) => Ok(Command::Focus(d)),
                    Err(e) => Err(e),
                }
            }
        } else if f == "move"@ {
            spec_move_command(parts)
        } else if f == "workspace"@ {
            match spec_parse_workspace_target(parts.skip(1)) {
                Ok(w) => Ok(Command::Workspace(w)),
                Err(e) => Err(e),
            }
        } else if f == "fullscreen"@ {
            if parts.len() >= 2 {
                if parts[1] == "container"@ {
                    Ok(Command::FullscreenContainer)
                } else if parts[1] == "virtual"@ || parts[1] == "virtual_output"@
                    || parts[1] == "workspace"@ {
                    Ok(Command::FullscreenVirtualOutput)
                } else if parts[1] == "physical"@ || parts[1] == "physical_output"@
                    || parts[1] == "global"@ {
                    Ok(Command::FullscreenPhysicalOutput)
                } else {
                    Ok(Command::Fullscreen)
                }
            } else {
                Ok(Command::Fullscreen)
            }
        } else if f == "floating"@ {
            if parts.len() >= 2 && parts[1] == "toggle"@ {
                Ok(Command::FloatingToggle)
            } else {
                Ok(raw)
            }
        } else if f == "layout"@ {
            spec_layout_command(parts)
        } else if f == "scratchpad"@ {
            if parts.len() >= 2 && parts[1] == "show"@ {
                Ok(Command::Scratchpad(ScratchpadCommand::Show))
            } else {
                Ok(raw)
            }
        } else if f == "mode"@ {
            if parts.len() >= 2 && parts[1] == "toggle"@ {
                Ok(Command::FocusModeToggle)
            } else if parts.len() >= 2 && parts[1] == "\"resize\""@ {
                Ok(Command::ResizeMode)
            } else {
                Ok(raw)
            }
        } else {
            Ok(raw)
        }
    }
}

pub open spec fn spec_parse_bindsym(c: ConfigView, parts: Parts) -> Result<
    ConfigView,
    ConfigErrorView,
> {
    if parts.len() < 2 {
        Err(ConfigError::BindsymNeedsKeyAndCommand)
    } else {
        match spec_parse_key_combo(c, parts[0]) {
            Err(e) => Err(e),
            Ok((m, k)) => match spec_parse_command(c, parts.skip(1)) {
                Err(e) => Err(e),
                Ok(cmd) => Ok(
                    ConfigView {
                        keybindings: c.keybindings.push(
                            Keybinding { modifiers: m, key: k, command: cmd },
                        ),
                        ..c
                    },
                ),
            },
        }
    }
}

// ----- outputs -----
/// Whether `s` names infinity or not-a-number as Rust reads a float: an
/// optional sign, then `inf`, `infinity` or `nan` in any case. Neither lies
/// between the bounds of a scale.
pub open spec fn names_non_finite(s: Seq<char>) -> bool {
    let body = if s.len() > 0 && (s[0] == '+' || s[0] == '-') {
        s.drop_first()
    } else {
        s
    };
    is_word_ci(body, "inf"@) || is_word_ci(body, "infinity"@) || is_word_ci(body, "nan"@)
}

fn names_non_finite_exec(s: &Vec<char>) -> (b: bool)
    ensures
        b == names_non_finite(s@),
{
    let body = if s.len() > 0 && (s[0] == '+' || s[0] == '-') {
        slice(s, 1, s.len())
    } else {
        slice(s, 0, s.len())
    };
    assert(s.len() > 0 && (s@[0] == '+' || s@[0] == '-') ==> body@ =~= s@.drop_first());
    assert(!(s.len() > 0 && (s@[0] == '+' || s@[0] == '-')) ==> body@ =~= s@);
    eq_word_ci(&body, "inf") || eq_word_ci(&body, "infinity") || eq_word_ci(&body, "nan")
}

/// Whether a scale lies between 0.5 and 4.0.
pub open spec fn scale_in_range(d: Decimal) -> bool {
    !d.negative && 2 * (d.digits as int) >= crate::text::pow10(d.frac_digits as nat) && (
    d.digits as int) <= 4 * crate::text::pow10(d.frac_digits as nat)
}

/// The canonical name of an output transform.
pub open spec fn transform_name(t: Seq<char>) -> Option<Seq<char>> {
    if is_word_ci(t, "normal"@) || is_word_ci(t, "0"@) {
        Some("normal"@)
    } else if is_word_ci(t, "90"@) {
        Some("90"@)
    } else if is_word_ci(t, "180"@) {
        Some("180"@)
    } else if is_word_ci(t, "270"@) {
        Some("270"@)
    } else if is_word_ci(t, "flipped"@) {
        Some("flipped"@)
    } else if is_word_ci(t, "flipped-90"@) {
        Some("flipped-90"@)
    } else if is_word_ci(t, "flipped-180"@) {
        Some("flipped-180"@)
    } else if is_word_ci(t, "flipped-270"@) {
        Some("flipped-270"@)
    } else {
        None
    }
}

pub open spec fn new_output(name: Seq<char>) -> OutputConfig<Seq<char>> {
    OutputConfig {
        name,
        resolution: None,
        position: None,
        scale: None,
        transform: None,
        background: None,
        split: None,
    }
}

/// A pair `a<sep>b` of 32-bit integers.
pub open spec fn int_pair(s: Seq<char>, sep: char, position: bool) -> Result<(i32, i32), ConfigErrorView> {
    let ps = fields(s, sep);
    if ps.len() != 2 {
        Err(if position { ConfigError::InvalidPosition(s) } else { ConfigError::InvalidResolution(s) })
    } else {
        match i32_of(ps[0]) {
            None => Err(if position { ConfigError::InvalidX(ps[0]) } else { ConfigError::InvalidWidth(ps[0]) }),
            Some(a) => match i32_of(ps[1]) {
                None => Err(if position { ConfigError::InvalidY(ps[1]) } else { ConfigError::InvalidHeight(ps[1]) }),
                Some(b) => Ok((a as i32, b as i32)),
            },
        }
    }
}

/// The `split` parameter at `parts[i]`: the split and the number of words
/// it takes.
pub open spec fn split_param(parts: Parts, i: int) -> Result<((SplitType, usize), int), ConfigErrorView> {
    let kind = parts[i + 1];
    if kind == "horizontal"@ || kind == "h"@ || kind == "vertical"@ || kind == "v"@ {
        match usize_of(parts[i + 2]) {
            None => Err(ConfigError::InvalidSplitCount(parts[i + 2])),
            Some(n) => if n < 2 || n > 10 {
                Err(ConfigError::SplitCountOutOfRange)
            } else if kind == "horizontal"@ || kind == "h"@ {
                Ok(((SplitType::Horizontal, n as usize), 3))
            } else {
                Ok(((SplitType::Vertical, n as usize), 3))
            },
        }
    } else if (kind == "grid"@ || kind == "g"@) && i + 3 < parts.len() {
        match usize_of(parts[i + 2]) {
            None => Err(ConfigError::InvalidGridRows(parts[i + 2])),
            Some(r) => match usize_of(parts[i + 3]) {
                None => Err(ConfigError::InvalidGridColumns(parts[i + 3])),
                Some(k) => if r < 1 || r > 5 || k < 1 || k > 5 {
                    Err(ConfigError::GridOutOfRange)
                } else {
                    Ok(((SplitType::Grid(r as usize, k as usize), (r * k) as usize), 4))
                },
            },
        }
    } else {
        Err(ConfigError::InvalidSplitType(kind))
    }
}

/// The output settings `parts[i..]` applied to `o` in order.
pub open spec fn output_params(parts: Parts, i: int, o: OutputConfig<Seq<char>>) -> Result<
    OutputConfig<Seq<char>>,
    ConfigErrorView,
>
    decreases parts.len() - i,
{
    if i < 0 || i >= parts.len() {
        Ok(o)
    } else {
        let p = parts[i];
        if p == "scale"@ && i + 1 < parts.len() {
            match parse_decimal(parts[i + 1]) {
                None => if names_non_finite(parts[i + 1]) {
                    Err(ConfigError::ScaleOutOfRange)
                } else {
                    Err(ConfigError::InvalidScale(parts[i + 1]))
                },
                Some(d) => if !scale_in_range(d) {
                    Err(ConfigError::ScaleOutOfRange)
                } else {
                    output_params(parts, i + 2, OutputConfig { scale: Some(d), ..o })
                },
            }
        } else if p == "resolution"@ && i + 1 < parts.len() {
            match int_pair(parts[i + 1], 'x', false) {
                Err(e) => Err(e),
                Ok(r) => output_params(parts, i + 2, OutputConfig { resolution: Some(r), ..o }),
            }
        } else if p == "position"@ && i + 1 < parts.len() {
            match int_pair(parts[i + 1], ',', true) {
                Err(e) => Err(e),
                Ok(r) => output_params(parts, i + 2, OutputConfig { position: Some(r), ..o }),
            }
        } else if p == "transform"@ && i + 1 < parts.len() {
            match transform_name(parts[i + 1]) {
                None => Err(ConfigError::InvalidTransform(parts[i + 1])),
                Some(t) => output_params(parts, i + 2, OutputConfig { transform: Some(t), ..o }),
            }
        } else if p == "split"@ && i + 2 < parts.len() {
            match split_param(parts, i) {
                Err(e) => Err(e),
                Ok((s, n)) => output_params(parts, i + n, OutputConfig { split: Some(s), ..o }),
            }
        } else {
            Err(ConfigError::UnknownOutputParameter(p))
        }
    }
}

/// `outs` with `o` stored: replacing the first output of the same name,
/// appended where there is none.
pub open spec fn store_output(outs: Seq<OutputConfig<Seq<char>>>, o: OutputConfig<Seq<char>>) -> Seq<
    OutputConfig<Seq<char>>,
>
    decreases outs.len(),
{
    if outs.len() == 0 {
        seq![o]
    } else if outs[0].name == o.name {
        outs.update(0, o)
    } else {
        seq![outs[0]] + store_output(outs.drop_first(), o)
    }
}

pub open spec fn spec_parse_output(c: ConfigView, parts: Parts) -> Result<ConfigView, ConfigErrorView> {
    if parts.len() < 1 {
        Err(ConfigError::OutputNeedsName)
    } else {
        match output_params(parts, 1, new_output(parts[0])) {
            Err(e) => Err(e),
            Ok(o) => Ok(ConfigView { outputs: store_output(c.outputs, o), ..c }),
        }
    }
}

pub open spec fn region_of(s: Seq<char>) -> Result<VirtualOutputRegion, ConfigErrorView> {
    let ps = fields(s, ',');
    if ps.len() != 4 {
        Err(ConfigError::RegionFormat)
    } else {
        match (i32_of(ps[0]), i32_of(ps[1]), i32_of(ps[2]), i32_of(ps[3])) {
            (None, _, _, _) => Err(ConfigError::InvalidRegionX(ps[0])),
            (Some(_), None, _, _) => Err(ConfigError::InvalidRegionY(ps[1])),
            (Some(_), Some(_), None, _) => Err(ConfigError::InvalidRegionWidth(ps[2])),
            (Some(_), Some(_), Some(_), None) => Err(ConfigError::InvalidRegionHeight(ps[3])),
            (Some(x), Some(y), Some(w), Some(h)) => Ok(
                VirtualOutputRegion { x: x as i32, y: y as i32, width: w as i32, height: h as i32 },
            ),
        }
    }
}

/// A grid `<columns>x<rows>`, each between 1 and 5.
pub open spec fn grid_of(s: Seq<char>) -> Result<(usize, usize), ConfigErrorView> {
    let ps = fields(s, 'x');
    if ps.len() != 2 {
        Err(ConfigError::GridFormat(s))
    } else {
        match usize_of(ps[0]) {
            None => Err(ConfigError::InvalidGridColumns(ps[0])),
            Some(k) => match usize_of(ps[1]) {
                None => Err(ConfigError::InvalidGridRows(ps[1])),
                Some(r) => if r < 1 || r > 5 || k < 1 || k > 5 {
                    Err(ConfigError::GridOutOfRange)
                } else {
                    Ok((k as usize, r as usize))
                },
            },
        }
    }
}

/// The direction named by the last word of a `merge` line.
pub open spec fn merge_direction(w: Seq<char>) -> Option<Orientation> {
    if w == "horizontal"@ || w == "h"@ {
        Some(Orientation::Horizontal)
    } else if w == "vertical"@ || w == "v"@ {
        Some(Orientation::Vertical)
    } else {
        None
    }
}

/// `outs` with the first output named `name` split as `s`, its other
/// settings kept; a new output with that split appended where there is none.
pub open spec fn with_split(
    outs: Seq<OutputConfig<Seq<char>>>,
    name: Seq<char>,
    s: (SplitType, usize),
) -> Seq<OutputConfig<Seq<char>>>
    decreases outs.len(),
{
    if outs.len() == 0 {
        seq![OutputConfig { split: Some(s), ..new_output(name) }]
    } else if outs[0].name == name {
        outs.update(0, OutputConfig { split: Some(s), ..outs[0] })
    } else {
        seq![outs[0]] + with_split(outs.drop_first(), name, s)
    }
}

/// A `virtual_output` line, in one of three forms:
/// `<output> split <columns>x<rows>` divides one output into a grid;
/// `<out1,out2,...> merge horizontal|vertical` joins outputs into one;
/// `<name> outputs <out1,...> [region x,y,w,h]` names a virtual output.
pub open spec fn spec_parse_virtual_output(c: ConfigView, parts: Parts) -> Result<
    ConfigView,
    ConfigErrorView,
> {
    if parts.len() >= 2 && parts[1] == "split"@ {
        if parts.len() < 3 {
            Err(ConfigError::VirtualOutputNeedsNameAndOutputs)
        } else {
            match grid_of(parts[2]) {
                Err(e) => Err(e),
                Ok((k, r)) => Ok(
                    ConfigView {
                        outputs: with_split(
                            c.outputs,
                            parts[0],
                            (SplitType::Grid(r, k), (r * k) as usize),
                        ),
                        ..c
                    },
                ),
            }
        }
    } else if parts.len() >= 2 && parts[1] == "merge"@ {
        if parts.len() < 3 {
            Err(ConfigError::VirtualOutputNeedsNameAndOutputs)
        } else {
            match merge_direction(parts[2]) {
                None => Err(ConfigError::InvalidMergeDirection(parts[2])),
                Some(o) => Ok(
                    ConfigView {
                        virtual_outputs: c.virtual_outputs.push(
                            VirtualOutputConfigView {
                                name: parts[0],
                                outputs: fields(parts[0], ','),
                                region: None,
                                merge: Some(o),
                            },
                        ),
                        ..c
                    },
                ),
            }
        }
    } else if parts.len() < 4 {
        Err(ConfigError::VirtualOutputNeedsNameAndOutputs)
    } else if parts[1] != "outputs"@ {
        Err(ConfigError::VirtualOutputNeedsOutputsKeyword)
    } else {
        let region = if parts.len() >= 5 && parts[3] == "region"@ {
            match region_of(parts[4]) {
                Ok(r) => Ok(Some(r)),
                Err(e) => Err(e),
            }
        } else {
            Ok(None)
        };
        match region {
            Err(e) => Err(e),
            Ok(r) => Ok(
                ConfigView {
                    virtual_outputs: c.virtual_outputs.push(
                        VirtualOutputConfigView {
                            name: parts[0],
                            outputs: fields(parts[2], ','),
                            region: r,
                            merge: None,
                        },
                    ),
                    ..c
                },
            ),
        }
    }
}

// ----- gaps, border, font -----
pub open spec fn spec_parse_gaps(c: ConfigView, parts: Parts) -> Result<ConfigView, ConfigErrorView> {
    if parts.len() < 2 {
        Ok(c)
    } else {
        match i32_of(parts[1]) {
            None => Err(ConfigError::InvalidInteger(parts[1])),
            Some(v) => {
                let v = Some(v as i32);
                let g = c.gaps;
                let k = parts[0];
                let g2 = if k == "inner"@ {
                    GapConfig { inner: v, ..g }
                } else if k == "outer"@ {
                    GapConfig { outer: v, ..g }
                } else if k == "top"@ {
                    GapConfig { top: v, ..g }
                } else if k == "bottom"@ {
                    GapConfig { bottom: v, ..g }
                } else if k == "left"@ {
                    GapConfig { left: v, ..g }
                } else if k == "right"@ {
                    GapConfig { right: v, ..g }
                } else {
                    g
                };
                Ok(ConfigView { gaps: g2, ..c })
            },
        }
    }
}

pub open spec fn spec_parse_border(c: ConfigView, parts: Parts) -> Result<ConfigView, ConfigErrorView> {
    if parts.len() >= 2 && parts[0] == "pixel"@ {
        match i32_of(parts[1]) {
            None => Err(ConfigError::InvalidInteger(parts[1])),
            Some(w) => Ok(ConfigView { border: BorderConfig { width: w as i32, ..c.border }, ..c }),
        }
    } else {
        Ok(c)
    }
}

pub open spec fn spec_parse_font(c: ConfigView, parts: Parts) -> ConfigView {
    if parts.len() >= 2 && parts[0] == "pango:"@ {
        ConfigView { font: join(parts.skip(1), ' '), ..c }
    } else {
        c
    }
}

// ----- input blocks -----
/// The first position of `x` in `s`.
pub open spec fn first_index(s: Seq<char>, x: char) -> Option<int>
    decreases s.len(),
{
    if s.len() == 0 {
        None
    } else if s[0] == x {
        Some(0)
    } else {
        match first_index(s.drop_first(), x) {
            Some(i) => Some(i + 1),
            None => None,
        }
    }
}

/// The last position of `x` in `s`.
pub open spec fn last_index(s: Seq<char>, x: char) -> Option<int>
    decreases s.len(),
{
    if s.len() == 0 {
        None
    } else if s.last() == x {
        Some(s.len() - 1)
    } else {
        last_index(s.drop_last(), x)
    }
}

/// The text after the `input` keyword of an input line.
pub open spec fn input_rest(line: Seq<char>) -> Seq<char> {
    trim_start(line.skip(5))
}


pub open spec fn switch_value(v: Seq<char>) -> Option<bool> {
    if v == "enabled"@ || v == "yes"@ || v == "true"@ || v == "on"@ {
        Some(true)
    } else if v == "disabled"@ || v == "no"@ || v == "false"@ || v == "off"@ {
        Some(false)
    } else {
        None
    }
}

/// One `key value` setting of an input block applied to `ic`. An
/// `accel_speed` is held exactly as a `Decimal` (the library keeps no
/// floating-point values), so a value that names infinity or not-a-number,
/// which has no such form, is refused as an invalid number.
pub open spec fn input_setting(ic: InputConfig<Seq<char>>, k: Seq<char>, v: Seq<char>) -> Result<
    InputConfig<Seq<char>>,
    ConfigErrorView,
> {
    if k == "repeat_delay"@ {
        match u32_of(v) {
            None => Err(ConfigError::InvalidInteger(v)),
            Some(n) => Ok(InputConfig { repeat_delay: Some(n as u32), ..ic }),
        }
    } else if k == "repeat_rate"@ {
        match u32_of(v) {
            None => Err(ConfigError::InvalidInteger(v)),
            Some(n) => Ok(InputConfig { repeat_rate: Some(n as u32), ..ic }),
        }
    } else if k == "xkb_layout"@ {
        Ok(InputConfig { xkb_layout: Some(v), ..ic })
    } else if k == "xkb_variant"@ {
        Ok(InputConfig { xkb_variant: Some(v), ..ic })
    } else if k == "xkb_model"@ {
        Ok(InputConfig { xkb_model: Some(v), ..ic })
    } else if k == "xkb_options"@ {
        Ok(InputConfig { xkb_options: Some(v), ..ic })
    } else if k == "accel_speed"@ {
        match parse_decimal(v) {
            None => Err(ConfigError::InvalidFloat(v)),
            Some(d) => Ok(InputConfig { accel_speed: Some(d), ..ic }),
        }
    } else if k == "accel_profile"@ {
        Ok(
            InputConfig {
                accel_profile: if v == "flat"@ {
                    Some(AccelProfile::Flat)
                } else if v == "adaptive"@ {
                    Some(AccelProfile::Adaptive)
                } else {
                    None
                },
                ..ic
            },
        )
    } else if k == "natural_scroll"@ {
        Ok(InputConfig { natural_scroll: switch_value(v), ..ic })
    } else if k == "tap"@ {
        Ok(InputConfig { tap: switch_value(v), ..ic })
    } else if k == "tap_button_map"@ {
        Ok(
            InputConfig {
                tap_button_map: if v == "lrm"@ {
                    Some(TapButtonMap::Lrm)
                } else if v == "lmr"@ {
                    Some(TapButtonMap::Lmr)
                } else {
                    None
                },
                ..ic
            },
        )
    } else if k == "scroll_method"@ {
        Ok(
            InputConfig {
                scroll_method: if v == "two_finger"@ {
                    Some(ScrollMethod::TwoFinger)
                } else if v == "edge"@ {
                    Some(ScrollMethod::Edge)
                } else if v == "on_button_down"@ {
                    Some(ScrollMethod::OnButtonDown)
                } else {
                    None
                },
                ..ic
            },
        )
    } else if k == "left_handed"@ {
        Ok(InputConfig { left_handed: switch_value(v), ..ic })
    } else if k == "middle_emulation"@ {
        Ok(InputConfig { middle_emulation: switch_value(v), ..ic })
    } else {
        Ok(ic)
    }
}

/// The settings `ws[i..]`, taken as `key value` pairs (a lone last word is
/// ignored), applied to `ic` in order.
pub open spec fn input_settings(ws: Parts, i: int, ic: InputConfig<Seq<char>>) -> Result<
    InputConfig<Seq<char>>,
    ConfigErrorView,
>
    decreases ws.len() - i,
{
    if i < 0 || i + 1 >= ws.len() {
        Ok(ic)
    } else {
        match input_setting(ic, ws[i], ws[i + 1]) {
            Err(e) => Err(e),
            Ok(ic2) => input_settings(ws, i + 2, ic2),
        }
    }
}

pub open spec fn new_input(identifier: Seq<char>) -> InputConfig<Seq<char>> {
    InputConfig {
        identifier,
        repeat_delay: None,
        repeat_rate: None,
        xkb_layout: None,
        xkb_variant: None,
        xkb_model: None,
        xkb_options: None,
        accel_speed: None,
        accel_profile: None,
        natural_scroll: None,
        tap: None,
        tap_button_map: None,
        scroll_method: None,
        left_handed: None,
        middle_emulation: None,
    }
}

/// An `input <identifier> { <settings> }` line.
pub open spec fn spec_parse_input(c: ConfigView, line: Seq<char>) -> Result<ConfigView, ConfigErrorView> {
    let rest = input_rest(line);
    match first_index(rest, '{') {
        None => Err(ConfigError::MissingInputBrace),
        Some(b) => match last_index(rest, '}') {
            None => Ok(c),
            Some(e) => if e < b + 1 {
                Err(ConfigError::InputBracesCrossed)
            } else {
                match input_settings(
                words(rest.subrange(b + 1, e)),
                0,
                new_input(trim(rest.take(b))),
            ) {
                Err(err) => Err(err),
                Ok(ic) => Ok(ConfigView { input_configs: c.input_configs.push(ic), ..c }),
                }
            },
        },
    }
}

// ----- lines -----
/// One configuration line applied to `c`.
pub open spec fn spec_parse_line(c: ConfigView, line: Seq<char>) -> Result<ConfigView, ConfigErrorView> {
    let parts = words(line);
    if parts.len() == 0 {
        Err(ConfigError::EmptyLine)
    } else {
        let f = parts[0];
        let args = parts.skip(1);
        if f == "set"@ {
            spec_parse_set(c, args)
        } else if f == "bindsym"@ {
            spec_parse_bindsym(c, args)
        } else if f == "exec"@ {
            spec_parse_exec(c, args)
        } else if f == "output"@ {
            spec_parse_output(c, args)
        } else if f == "virtual_output"@ {
            spec_parse_virtual_output(c, args)
        } else if f == "workspace"@ {
            Ok(c)
        } else if f == "focus_follows_mouse"@ {
            spec_parse_focus_follows_mouse(c, args)
        } else if f == "gaps"@ {
            spec_parse_gaps(c, args)
        } else if f == "default_border"@ {
            spec_parse_border(c, args)
        } else if f == "font"@ {
            Ok(spec_parse_font(c, args))
        } else if f == "input"@ {
            spec_parse_input(c, line)
        } else {
            Ok(c)
        }
    }
}

/// A `focus_follows_mouse yes|no` line: the setting is kept as the variable
/// of that name, which `Config::focus_follows_mouse` reads.
pub open spec fn spec_parse_focus_follows_mouse(c: ConfigView, parts: Parts) -> Result<
    ConfigView,
    ConfigErrorView,
> {
    if parts.len() == 0 {
        Err(ConfigError::FocusFollowsMouseNeedsValue)
    } else {
        Ok(
            ConfigView {
                variables: bind(c.variables, "focus_follows_mouse"@, parts[0]),
                ..c
            },
        )
    }
}

/// Law: a `focus_follows_mouse v` line sets the setting to `v`, which is
/// what is read back under that name, and leaves every other variable as it
/// was.
pub proof fn law_focus_follows_mouse_line(c: ConfigView, v: Seq<char>, other: Seq<char>)
    ensures
        spec_parse_focus_follows_mouse(c, seq![v]) matches Ok(c2) && lookup(
            c2.variables,
            "focus_follows_mouse"@,
        ) == Some(v) && (other != "focus_follows_mouse"@ ==> lookup(c2.variables, other) == lookup(
            c.variables,
            other,
        )),
{
    crate::config::law_get_after_set(c.variables, "focus_follows_mouse"@, v, other);
}

/// Law: `number N` names the same workspace as `N` alone.
pub proof fn law_workspace_number(w: Seq<char>)
    ensures
        spec_parse_workspace_target(seq!["number"@, w]) == spec_parse_workspace_target(seq![w]),
{
}

/// Whether `r` is `m` with just the flags named here raised (those given
/// as `false` kept as in `m`, the lock and level keys kept too).
pub open spec fn raised(r: ModifiersState, m: ModifiersState, ctrl: bool, alt: bool, shift: bool, logo: bool) -> bool {
    &&& r.ctrl == (m.ctrl || ctrl)
    &&& r.alt == (m.alt || alt)
    &&& r.shift == (m.shift || shift)
    &&& r.logo == (m.logo || logo)
    &&& r.caps_lock == m.caps_lock
    &&& r.num_lock == m.num_lock
    &&& r.iso_level3_shift == m.iso_level3_shift
    &&& r.iso_level5_shift == m.iso_level5_shift
}

/// Law: each modifier word sets exactly the flag it names and leaves the
/// others as they were: `Mod1` or `Alt` sets Alt, `Mod4`, `Super` or `Logo`
/// sets Logo, `Ctrl` or `Control` sets Ctrl, `Shift` sets Shift; any other
/// word is an unknown modifier. A `$name` word stands for the value of the
/// variable `name`.
pub proof fn law_modifier_word_sets_its_flag(c: ConfigView, m: ModifiersState, w: Seq<char>)
    requires
        !(w.len() > 0 && w[0] == '$'),
    ensures
        (w == "Mod1"@ || w == "Alt"@) ==> (add_modifier(c, m, w) matches Ok(r) && raised(r, m, false, true, false, false)),
        (w == "Mod4"@ || w == "Super"@ || w == "Logo"@) ==> (add_modifier(c, m, w) matches Ok(r) && raised(r, m, false, false, false, true)),
        (w == "Ctrl"@ || w == "Control"@) ==> (add_modifier(c, m, w) matches Ok(r) && raised(r, m, true, false, false, false)),
        w == "Shift"@ ==> (add_modifier(c, m, w) matches Ok(r) && raised(r, m, false, false, true, false)),
        !(w == "Mod1"@ || w == "Alt"@ || w == "Mod4"@ || w == "Super"@ || w == "Logo"@ || w == "Ctrl"@
            || w == "Control"@ || w == "Shift"@) ==> add_modifier(c, m, w) == Err::<ModifiersState, ConfigErrorView>(
            ConfigError::UnknownModifier(w),
        ),
        forall|v: Seq<char>| #![auto] lookup(c.variables, v) == Some(w) ==> add_modifier(
            c,
            m,
            seq!['$'] + v,
        ) == add_modifier(c, m, w),
{
    reveal_strlit("Mod1");
    reveal_strlit("Alt");
    reveal_strlit("Mod4");
    reveal_strlit("Super");
    reveal_strlit("Logo");
    reveal_strlit("Ctrl");
    reveal_strlit("Control");
    reveal_strlit("Shift");
    assert("Mod1"@[3] != "Mod4"@[3]);
    assert("Mod1"@[0] != "Logo"@[0] && "Mod1"@[0] != "Ctrl"@[0] && "Mod4"@[0] != "Logo"@[0]);
    assert("Mod4"@[0] != "Ctrl"@[0] && "Logo"@[0] != "Ctrl"@[0] && "Super"@[1] != "Shift"@[1]);
    assert forall|v: Seq<char>| #![auto] lookup(c.variables, v) == Some(w) implies add_modifier(
        c,
        m,
        seq!['$'] + v,
    ) == add_modifier(c, m, w) by {
        assert((seq!['$'] + v).drop_first() =~= v);
        assert((seq!['$'] + v)[0] == '$');
    }
}

/// Law: a key combination of one modifier word and a key gives exactly that
/// modifier: `Mod1+Return` is Alt alone, `Mod4+q` is Logo alone, and so on.
pub proof fn law_single_modifier_combo(c: ConfigView, combo: Seq<char>, w: Seq<char>, k: Seq<char>)
    requires
        fields(combo, '+') == seq![w, k],
        key_for(k) is Some,
        !(w.len() > 0 && w[0] == '$'),
    ensures
        (w == "Mod1"@ || w == "Alt"@) ==> (spec_parse_key_combo(c, combo) matches Ok((r, key)) && r.alt
            && !r.ctrl && !r.shift && !r.logo && key.raw == key_for(k)->0),
        (w == "Mod4"@ || w == "Super"@ || w == "Logo"@) ==> (spec_parse_key_combo(c, combo) matches Ok((r, key))
            && r.logo && !r.ctrl && !r.shift && !r.alt && key.raw == key_for(k)->0),
        (w == "Ctrl"@ || w == "Control"@) ==> (spec_parse_key_combo(c, combo) matches Ok((r, key)) && r.ctrl
            && !r.alt && !r.shift && !r.logo && key.raw == key_for(k)->0),
        w == "Shift"@ ==> (spec_parse_key_combo(c, combo) matches Ok((r, key)) && r.shift && !r.ctrl
            && !r.alt && !r.logo && key.raw == key_for(k)->0),
{
    reveal_strlit("Mod1");
    reveal_strlit("Alt");
    reveal_strlit("Mod4");
    reveal_strlit("Super");
    reveal_strlit("Logo");
    reveal_strlit("Ctrl");
    reveal_strlit("Control");
    reveal_strlit("Shift");
    assert("Mod1"@[3] != "Mod4"@[3]);
    assert("Mod1"@[0] != "Logo"@[0] && "Mod1"@[0] != "Ctrl"@[0] && "Mod4"@[0] != "Logo"@[0]);
    assert("Mod4"@[0] != "Ctrl"@[0] && "Logo"@[0] != "Ctrl"@[0] && "Super"@[1] != "Shift"@[1]);
    let ps = fields(combo, '+');
    assert(ps.drop_last() =~= seq![w]);
    assert(ps.last() == k);
    law_modifier_word_sets_its_flag(c, crate::config::no_modifiers(), w);
    let m0 = crate::config::no_modifiers();
    match add_modifier(c, m0, w) {
        Ok(m1) => {
            assert(add_modifiers(c, seq![w], 1, m1) == Ok::<ModifiersState, ConfigErrorView>(m1));
            assert(add_modifiers(c, seq![w], 0, m0) == add_modifiers(c, seq![w], 1, m1));
        },
        Err(_) => {},
    }
}

/// Whether a configuration line is read at all (not blank, no comment).
pub open spec fn is_setting_line(t: Seq<char>) -> bool {
    t.len() > 0 && t[0] != '#'
}


/// The lines `ls[i..]` applied to `c` in order; a line that cannot be read
/// leaves the configuration as it was.
pub open spec fn apply_lines(c: ConfigView, ls: Parts, i: int) -> ConfigView
    decreases ls.len() - i,
{
    if i < 0 || i >= ls.len() {
        c
    } else {
        let t = trim(ls[i]);
        let c2 = if is_setting_line(t) {
            match spec_parse_line(c, t) {
                Ok(c2) => c2,
                Err(_) => c,
            }
        } else {
            c
        };
        apply_lines(c2, ls, i + 1)
    }
}

/// The configuration that a text describes.
pub open spec fn spec_parse_config(content: Seq<char>) -> ConfigView {
    apply_lines(crate::config::default_config(), lines(content), 0)
}




// ----- executable reading -----
/// Whether `r` is the outcome that `s` describes, `before` and `after`
/// being the configuration before and after the step.
pub open spec fn applied(
    before: ConfigView,
    after: ConfigView,
    r: Result<(), ConfigError>,
    s: Result<ConfigView, ConfigErrorView>,
) -> bool {
    match s {
        Ok(c) => r is Ok && after == c,
        Err(e) => res_view(r) == Err::<(), ConfigErrorView>(e) && after == before,
    }
}

/// `parts[from..]` as a new vector.
pub fn tail(parts: &Vec<Vec<char>>, from: usize) -> (r: Vec<Vec<char>>)
    requires
        from <= parts.len(),
    ensures
        views(r@) == views(parts@).skip(from as int),
{
    let mut r: Vec<Vec<char>> = Vec::new();
    let mut i = from;
    assert(views(r@) =~= views(parts@).subrange(from as int, from as int));
    while i < parts.len()
        invariant
            from <= i <= parts.len(),
            views(r@) == views(parts@).subrange(from as int, i as int),
        decreases parts.len() - i,
    {
        let p = slice(&parts[i], 0, parts[i].len());
        assert(p@ =~= parts@[i as int]@);
        proof {
            crate::text::lemma_views_push(r@, p);
        }
        r.push(p);
        i += 1;
        assert(views(r@) =~= views(parts@).subrange(from as int, i as int));
    }
    assert(views(parts@).subrange(from as int, parts.len() as int) =~= views(parts@).skip(
        from as int,
    ));
    r
}

pub fn parse_set(config: &mut Config, parts: &Vec<Vec<char>>) -> (r: Result<(), ConfigError>)
    ensures
        applied(old(config)@, final(config)@, r, spec_parse_set(old(config)@, views(parts@))),
{
    if parts.len() < 2 {
        return Err(ConfigError::SetNeedsNameAndValue);
    }
    let value = join_from(parts, 1, ' ');
    let name0 = &parts[0];
    let name = if name0.len() > 0 && name0[0] == '$' {
        slice(name0, 1, name0.len())
    } else {
        slice(name0, 0, name0.len())
    };
    assert(name@ =~= strip_dollar(views(parts@)[0]));
    let expanded = config.expand_chars(&value);
    config.set_variable(string_of(&name), string_of(&expanded));
    Ok(())
}

pub fn parse_exec(config: &mut Config, parts: &Vec<Vec<char>>) -> (r: Result<(), ConfigError>)
    ensures
        applied(old(config)@, final(config)@, r, spec_parse_exec(old(config)@, views(parts@))),
{
    if parts.len() == 0 {
        return Err(ConfigError::ExecNeedsCommand);
    }
    let command = join_from(parts, 0, ' ');
    assert(views(parts@).skip(0) =~= views(parts@));
    let expanded = config.expand_chars(&command);
    let ghost before = config@;
    config.startup_commands.push(string_of(&expanded));
    assert(config@ =~= (ConfigView {
        startup_commands: before.startup_commands.push(expanded@),
        ..before
    }));
    Ok(())
}

/// The keysym of a key name.
pub fn parse_key(name: &Vec<char>) -> (r: Result<Keysym, ConfigError>)
    ensures
        match key_for(name@) {
            Some(k) => r == Ok::<Keysym, ConfigError>(Keysym { raw: k }),
            None => res_view(r) == Err::<Keysym, ConfigErrorView>(ConfigError::UnknownKey(name@)),
        },
{
    let k: Option<u32> = if name.len() == 1 && 'a' <= name[0] && name[0] <= 'z' {
        Some(name[0] as u32)
    } else if name.len() == 1 && 'A' <= name[0] && name[0] <= 'Z' {
        Some(name[0] as u32 + 32)
    } else if name.len() == 1 && '0' <= name[0] && name[0] <= '9' {
        Some(name[0] as u32)
    } else if eq_str(name, "exclam") {
        Some(0x31)
    } else if eq_str(name, "at") {
        Some(0x32)
    } else if eq_str(name, "numbersign") {
        Some(0x33)
    } else if eq_str(name, "dollar") {
        Some(0x34)
    } else if eq_str(name, "percent") {
        Some(0x35)
    } else if eq_str(name, "asciicircum") {
        Some(0x36)
    } else if eq_str(name, "ampersand") {
        Some(0x37)
    } else if eq_str(name, "asterisk") {
        Some(0x38)
    } else if eq_str(name, "parenleft") {
        Some(0x39)
    } else if eq_str(name, "parenright") {
        Some(0x30)
    } else if eq_str(name, "Return") || eq_str(name, "Enter") {
        Some(0xff0d)
    } else if eq_str(name, "space") {
        Some(0x20)
    } else if eq_str(name, "Tab") {
        Some(0xff09)
    } else if eq_str(name, "Escape") || eq_str(name, "Esc") {
        Some(0xff1b)
    } else if eq_str(name, "BackSpace") {
        Some(0xff08)
    } else if eq_str(name, "Delete") {
        Some(0xffff)
    } else if eq_str(name, "Left") {
        Some(0xff51)
    } else if eq_str(name, "Right") {
        Some(0xff53)
    } else if eq_str(name, "Up") {
        Some(0xff52)
    } else if eq_str(name, "Down") {
        Some(0xff54)
    } else if eq_str(name, "Home") {
        Some(0xff50)
    } else if eq_str(name, "End") {
        Some(0xff57)
    } else if eq_str(name, "Page_Up") || eq_str(name, "Prior") {
        Some(0xff55)
    } else if eq_str(name, "Page_Down") || eq_str(name, "Next") {
        Some(0xff56)
    } else if eq_str(name, "F1") {
        Some(0xffbe)
    } else if eq_str(name, "F2") {
        Some(0xffbf)
    } else if eq_str(name, "F3") {
        Some(0xffc0)
    } else if eq_str(name, "F4") {
        Some(0xffc1)
    } else if eq_str(name, "F5") {
        Some(0xffc2)
    } else if eq_str(name, "F6") {
        Some(0xffc3)
    } else if eq_str(name, "F7") {
        Some(0xffc4)
    } else if eq_str(name, "F8") {
        Some(0xffc5)
    } else if eq_str(name, "F9") {
        Some(0xffc6)
    } else if eq_str(name, "F10") {
        Some(0xffc7)
    } else if eq_str(name, "F11") {
        Some(0xffc8)
    } else if eq_str(name, "F12") {
        Some(0xffc9)
    } else if eq_str(name, "Print") {
        Some(0xff61)
    } else if eq_str(name, "XF86AudioMute") {
        Some(0x1008ff12)
    } else if eq_str(name, "XF86AudioRaiseVolume") {
        Some(0x1008ff13)
    } else if eq_str(name, "XF86AudioLowerVolume") {
        Some(0x1008ff11)
    } else if eq_str(name, "XF86AudioPlay") {
        Some(0x1008ff14)
    } else if eq_str(name, "XF86AudioNext") {
        Some(0x1008ff17)
    } else if eq_str(name, "XF86AudioPrev") {
        Some(0x1008ff16)
    } else {
        None
    };
    match k {
        Some(raw) => Ok(Keysym::new(raw)),
        None => Err(ConfigError::UnknownKey(string_of(name))),
    }
}

pub fn parse_modifier(config: &Config, m: ModifiersState, part: &Vec<char>) -> (r: Result<
    ModifiersState,
    ConfigError,
>)
    ensures
        res_view(r) == add_modifier(config@, m, part@),
{
    let name = if part.len() > 0 && part[0] == '$' {
        let v = slice(part, 1, part.len());
        assert(v@ =~= part@.drop_first());
        match config.lookup_chars(&v) {
            Some(s) => chars_of(s.as_str()),
            None => {
                return Err(ConfigError::UnknownVariable(string_of(part)));
            },
        }
    } else {
        slice(part, 0, part.len())
    };
    assert(part@.subrange(0, part@.len() as int) =~= part@);
    let mut m = m;
    if eq_str(&name, "Mod1") || eq_str(&name, "Alt") {
        m.alt = true;
    } else if eq_str(&name, "Mod4") || eq_str(&name, "Super") || eq_str(&name, "Logo") {
        m.logo = true;
    } else if eq_str(&name, "Ctrl") || eq_str(&name, "Control") {
        m.ctrl = true;
    } else if eq_str(&name, "Shift") {
        m.shift = true;
    } else {
        return Err(ConfigError::UnknownModifier(string_of(&name)));
    }
    Ok(m)
}

/// Reads a key combination such as `$mod+Shift+q`.
pub fn parse_key_combo(config: &Config, combo: &Vec<char>) -> (r: Result<
    (ModifiersState, Keysym),
    ConfigError,
>)
    ensures
        res_view(r) == spec_parse_key_combo(config@, combo@),
{
    let ps = split_char(combo, '+');
    let ghost mods = views(ps@).drop_last();
    let n = ps.len() - 1;
    let mut m = ModifiersState::default();
    let mut i: usize = 0;
    while i < n
        invariant
            n == ps.len() - 1,
            ps.len() >= 1,
            i <= n,
            mods == views(ps@).drop_last(),
            views(ps@) == fields(combo@, '+'),
            add_modifiers(config@, mods, 0, crate::config::no_modifiers()) == add_modifiers(
                config@,
                mods,
                i as int,
                m,
            ),
        decreases n - i,
    {
        assert(mods[i as int] == ps@[i as int]@);
        match parse_modifier(config, m, &ps[i]) {
            Ok(m2) => {
                m = m2;
            },
            Err(e) => {
                return Err(e);
            },
        }
        i += 1;
    }
    assert(views(ps@).last() == ps@[n as int]@);
    match parse_key(&ps[n]) {
        Ok(k) => Ok((m, k)),
        Err(e) => Err(e),
    }
}

pub fn parse_direction(d: &Vec<char>) -> (r: Result<Direction, ConfigError>)
    ensures
        res_view(r) == spec_parse_direction(d@),
{
    if eq_str(d, "left") {
        Ok(Direction::Left)
    } else if eq_str(d, "right") {
        Ok(Direction::Right)
    } else if eq_str(d, "up") {
        Ok(Direction::Up)
    } else if eq_str(d, "down") {
        Ok(Direction::Down)
    } else {
        Err(ConfigError::UnknownDirection(string_of(d)))
    }
}

/// Whether `r` is `s` read through the view of its `Ok` value.
pub open spec fn same_target(
    r: Result<WorkspaceTarget, ConfigError>,
    s: Result<WorkspaceTarget<Seq<char>>, ConfigErrorView>,
) -> bool {
    match r {
        Ok(w) => s == Ok::<WorkspaceTarget<Seq<char>>, ConfigErrorView>(w@),
        Err(e) => s == Err::<WorkspaceTarget<Seq<char>>, ConfigErrorView>(e@),
    }
}

fn target_word_exec(f: &Vec<char>) -> (r: WorkspaceTarget)
    ensures
        r@ == target_word(f@),
{
    if eq_str(f, "1") {
        WorkspaceTarget::Number(1)
    } else if eq_str(f, "2") {
        WorkspaceTarget::Number(2)
    } else if eq_str(f, "3") {
        WorkspaceTarget::Number(3)
    } else if eq_str(f, "4") {
        WorkspaceTarget::Number(4)
    } else if eq_str(f, "5") {
        WorkspaceTarget::Number(5)
    } else if eq_str(f, "6") {
        WorkspaceTarget::Number(6)
    } else if eq_str(f, "7") {
        WorkspaceTarget::Number(7)
    } else if eq_str(f, "8") {
        WorkspaceTarget::Number(8)
    } else if eq_str(f, "9") {
        WorkspaceTarget::Number(9)
    } else if eq_str(f, "10") {
        WorkspaceTarget::Number(10)
    } else if eq_str(f, "next") || eq_str(f, "next_on_output") {
        WorkspaceTarget::Next
    } else if eq_str(f, "prev") || eq_str(f, "previous") || eq_str(f, "prev_on_output") {
        WorkspaceTarget::Previous
    } else {
        WorkspaceTarget::Name(string_of(f))
    }
}

pub fn parse_workspace_target(parts: &Vec<Vec<char>>) -> (r: Result<WorkspaceTarget, ConfigError>)
    ensures
        same_target(r, spec_parse_workspace_target(views(parts@))),
{
    if parts.len() == 0 {
        return Err(ConfigError::WorkspaceTargetRequired);
    }
    assert(views(parts@)[0] == parts@[0]@);
    if parts.len() >= 2 && eq_str(&parts[0], "number") {
        assert(views(parts@)[1] == parts@[1]@);
        Ok(target_word_exec(&parts[1]))
    } else {
        Ok(target_word_exec(&parts[0]))
    }
}

/// Whether `r` is `s` read through the view of its `Ok` value.
pub open spec fn same_command(
    r: Result<Command, ConfigError>,
    s: Result<Command<Seq<char>>, ConfigErrorView>,
) -> bool {
    match r {
        Ok(c) => s == Ok::<Command<Seq<char>>, ConfigErrorView>(c@),
        Err(e) => s == Err::<Command<Seq<char>>, ConfigErrorView>(e@),
    }
}

fn raw_command(parts: &Vec<Vec<char>>) -> (r: Command)
    ensures
        r@ == Command::<Seq<char>>::Raw(join(views(parts@), ' ')),
{
    let j = join_from(parts, 0, ' ');
    assert(views(parts@).skip(0) =~= views(parts@));
    Command::Raw(string_of(&j))
}

fn parse_move_command(parts: &Vec<Vec<char>>) -> (r: Result<Command, ConfigError>)
    ensures
        same_command(r, spec_move_command(views(parts@))),
{
    let ghost ps = views(parts@);
    if parts.len() < 2 {
        return Err(ConfigError::MoveNeedsArgument);
    }
    let t = &parts[1];
    assert(ps[1] == t@);
    if eq_str(t, "left") || eq_str(t, "right") || eq_str(t, "up") || eq_str(t, "down") {
        match parse_direction(t) {
            Ok(d) => Ok(Command::Move(d)),
            Err(e) => Err(e),
        }
    } else if eq_str(t, "container") || eq_str(t, "window") {
        if parts.len() >= 4 && eq_str(&parts[2], "to") && eq_str(&parts[3], "workspace") {
            assert(ps[2] == parts@[2]@ && ps[3] == parts@[3]@);
            let rest = tail(parts, 4);
            match parse_workspace_target(&rest) {
                Ok(w) => Ok(Command::MoveToWorkspace(w)),
                Err(e) => Err(e),
            }
        } else {
            proof {
                if parts.len() >= 4 {
                    assert(ps[2] == parts@[2]@ && ps[3] == parts@[3]@);
                }
            }
            Ok(raw_command(parts))
        }
    } else if eq_str(t, "workspace") {
        if parts.len() >= 5 && eq_str(&parts[2], "to") && eq_str(&parts[3], "output") {
            assert(ps[2] == parts@[2]@ && ps[3] == parts@[3]@ && ps[4] == parts@[4]@);
            match parse_direction(&parts[4]) {
                Ok(d) => Ok(Command::MoveWorkspaceToOutput(d)),
                Err(e) => Err(e),
            }
        } else {
            proof {
                if parts.len() >= 5 {
                    assert(ps[2] == parts@[2]@ && ps[3] == parts@[3]@);
                }
            }
            Ok(raw_command(parts))
        }
    } else if eq_str(t, "scratchpad") {
        Ok(Command::Scratchpad(ScratchpadCommand::Move))
    } else {
        Ok(raw_command(parts))
    }
}

fn parse_layout_command(parts: &Vec<Vec<char>>) -> (r: Result<Command, ConfigError>)
    ensures
        same_command(r, spec_layout_command(views(parts@))),
{
    let ghost ps = views(parts@);
    if parts.len() < 2 {
        return Err(ConfigError::LayoutNeedsArgument);
    }
    assert(ps[1] == parts@[1]@);
    if eq_str(&parts[1], "stacking") {
        Ok(Command::Layout(LayoutCommand::Stacking))
    } else if eq_str(&parts[1], "tabbed") {
        Ok(Command::Layout(LayoutCommand::Tabbed))
    } else if eq_str(&parts[1], "toggle") {
        if parts.len() >= 3 && eq_str(&parts[2], "split") {
            assert(ps[2] == parts@[2]@);
            Ok(Command::Layout(LayoutCommand::ToggleSplit))
        } else {
            proof {
                if parts.len() >= 3 {
                    assert(ps[2] == parts@[2]@);
                }
            }
            Err(ConfigError::UnknownLayoutToggle)
        }
    } else {
        Err(ConfigError::UnknownLayout(string_of(&parts[1])))
    }
}

/// Reads the command part of a binding.
pub fn parse_command(config: &Config, parts: &Vec<Vec<char>>) -> (r: Result<Command, ConfigError>)
    ensures
        same_command(r, spec_parse_command(config@, views(parts@))),
{
    let ghost ps = views(parts@);
    if parts.len() == 0 {
        return Err(ConfigError::EmptyCommand);
    }
    let f = &parts[0];
    assert(ps[0] == f@);
    if eq_str(f, "exec") {
        let program = join_from(parts, 1, ' ');
        let e = config.expand_chars(&program);
        Ok(Command::Exec(string_of(&e)))
    } else if eq_str(f, "kill") {
        Ok(Command::Kill)
    } else if eq_str(f, "reload") {
        Ok(Command::Reload)
    } else if eq_str(f, "exit") {
        Ok(Command::Exit)
    } else if eq_str(f, "debugswapwindows") {
        Ok(Command::DebugSwapWindows)
    } else if eq_str(f, "splith") {
        Ok(Command::SplitHorizontal)
    } else if eq_str(f, "splitv") {
        Ok(Command::SplitVertical)
    } else if eq_str(f, "splitauto") {
        Ok(Command::SplitAutomatic)
    } else if eq_str(f, "movetableft") {
        Ok(Command::MoveTabLeft)
    } else if eq_str(f, "movetabright") {
        Ok(Command::MoveTabRight)
    } else if eq_str(f, "focus") {
        if parts.len() < 2 {
            Err(ConfigError::FocusNeedsDirection)
        } else if eq_str(&parts[1], "mode_toggle") {
            assert(ps[1] == parts@[1]@);
            Ok(Command::FocusModeToggle)
        } else {
            assert(ps[1] == parts@[1]@);
            match parse_direction(&parts[1]) {
                Ok(d) => Ok(Command::Focus(d)),
                Err(e) => Err(e),
            }
        }
    } else if eq_str(f, "move") {
        parse_move_command(parts)
    } else if eq_str(f, "workspace") {
        let rest = tail(parts, 1);
        match parse_workspace_target(&rest) {
            Ok(w) => Ok(Command::Workspace(w)),
            Err(e) => Err(e),
        }
    } else if eq_str(f, "fullscreen") {
        if parts.len() >= 2 {
            let a = &parts[1];
            assert(ps[1] == a@);
            if eq_str(a, "container") {
                Ok(Command::FullscreenContainer)
            } else if eq_str(a, "virtual") || eq_str(a, "virtual_output") || eq_str(a, "workspace") {
                Ok(Command::FullscreenVirtualOutput)
            } else if eq_str(a, "physical") || eq_str(a, "physical_output") || eq_str(a, "global") {
                Ok(Command::FullscreenPhysicalOutput)
            } else {
                Ok(Command::Fullscreen)
            }
        } else {
            Ok(Command::Fullscreen)
        }
    } else if eq_str(f, "floating") {
        if parts.len() >= 2 && eq_str(&parts[1], "toggle") {
            assert(ps[1] == parts@[1]@);
            Ok(Command::FloatingToggle)
        } else {
            proof {
                if parts.len() >= 2 {
                    assert(ps[1] == parts@[1]@);
                }
            }
            Ok(raw_command(parts))
        }
    } else if eq_str(f, "layout") {
        parse_layout_command(parts)
    } else if eq_str(f, "scratchpad") {
        if parts.len() >= 2 && eq_str(&parts[1], "show") {
            assert(ps[1] == parts@[1]@);
            Ok(Command::Scratchpad(ScratchpadCommand::Show))
        } else {
            proof {
                if parts.len() >= 2 {
                    assert(ps[1] == parts@[1]@);
                }
            }
            Ok(raw_command(parts))
        }
    } else if eq_str(f, "mode") {
        proof {
            if parts.len() >= 2 {
                assert(ps[1] == parts@[1]@);
            }
        }
        if parts.len() >= 2 && eq_str(&parts[1], "toggle") {
            Ok(Command::FocusModeToggle)
        } else if parts.len() >= 2 && eq_str(&parts[1], "\"resize\"") {
            Ok(Command::ResizeMode)
        } else {
            Ok(raw_command(parts))
        }
    } else {
        Ok(raw_command(parts))
    }
}

pub fn parse_bindsym(config: &mut Config, parts: &Vec<Vec<char>>) -> (r: Result<(), ConfigError>)
    ensures
        applied(old(config)@, final(config)@, r, spec_parse_bindsym(old(config)@, views(parts@))),
{
    if parts.len() < 2 {
        return Err(ConfigError::BindsymNeedsKeyAndCommand);
    }
    assert(views(parts@)[0] == parts@[0]@);
    let (modifiers, key) = match parse_key_combo(config, &parts[0]) {
        Ok(p) => p,
        Err(e) => {
            return Err(e);
        },
    };
    let rest = tail(parts, 1);
    let command = match parse_command(config, &rest) {
        Ok(c) => c,
        Err(e) => {
            return Err(e);
        },
    };
    let ghost before = config@;
    let kb = Keybinding { modifiers, key, command };
    config.keybindings.push(kb);
    assert(config@ =~= (ConfigView {
        keybindings: before.keybindings.push(kb@),
        ..before
    }));
    Ok(())
}

// ----- outputs -----
fn int_pair_exec(s: &Vec<char>, sep: char, position: bool) -> (r: Result<(i32, i32), ConfigError>)
    ensures
        res_view(r) == int_pair(s@, sep, position),
{
    let ps = split_char(s, sep);
    if ps.len() != 2 {
        return Err(
            if position {
                ConfigError::InvalidPosition(string_of(s))
            } else {
                ConfigError::InvalidResolution(string_of(s))
            },
        );
    }
    assert(views(ps@)[0] == ps@[0]@ && views(ps@)[1] == ps@[1]@);
    match parse_i32(&ps[0]) {
        None => Err(
            if position {
                ConfigError::InvalidX(string_of(&ps[0]))
            } else {
                ConfigError::InvalidWidth(string_of(&ps[0]))
            },
        ),
        Some(a) => match parse_i32(&ps[1]) {
            None => Err(
                if position {
                    ConfigError::InvalidY(string_of(&ps[1]))
                } else {
                    ConfigError::InvalidHeight(string_of(&ps[1]))
                },
            ),
            Some(b) => Ok((a, b)),
        },
    }
}

fn transform_name_exec(t: &Vec<char>) -> (r: Option<String>)
    ensures
        crate::config::opt_view(r) == transform_name(t@),
{
    let name: &str = if eq_word_ci(t, "normal") || eq_word_ci(t, "0") {
        "normal"
    } else if eq_word_ci(t, "90") {
        "90"
    } else if eq_word_ci(t, "180") {
        "180"
    } else if eq_word_ci(t, "270") {
        "270"
    } else if eq_word_ci(t, "flipped") {
        "flipped"
    } else if eq_word_ci(t, "flipped-90") {
        "flipped-90"
    } else if eq_word_ci(t, "flipped-180") {
        "flipped-180"
    } else if eq_word_ci(t, "flipped-270") {
        "flipped-270"
    } else {
        return None;
    };
    let v = chars_of(name);
    Some(string_of(&v))
}

fn split_param_exec(parts: &Vec<Vec<char>>, i: usize) -> (r: Result<((SplitType, usize), usize), ConfigError>)
    requires
        i + 2 < parts.len(),
    ensures
        match split_param(views(parts@), i as int) {
            Ok((s, n)) => r == Ok::<((SplitType, usize), usize), ConfigError>((s, n as usize)),
            Err(e) => res_view(r) == Err::<((SplitType, usize), usize), ConfigErrorView>(e),
        },
{
    let ghost ps = views(parts@);
    let kind = &parts[i + 1];
    assert(ps[i + 1] == kind@ && ps[i + 2] == parts@[i + 2]@);
    let horizontal = eq_str(kind, "horizontal") || eq_str(kind, "h");
    if horizontal || eq_str(kind, "vertical") || eq_str(kind, "v") {
        match parse_usize(&parts[i + 2]) {
            None => Err(ConfigError::InvalidSplitCount(string_of(&parts[i + 2]))),
            Some(n) => if n < 2 || n > 10 {
                Err(ConfigError::SplitCountOutOfRange)
            } else if horizontal {
                Ok(((SplitType::Horizontal, n), 3))
            } else {
                Ok(((SplitType::Vertical, n), 3))
            },
        }
    } else if (eq_str(kind, "grid") || eq_str(kind, "g")) && i + 3 < parts.len() {
        assert(ps[i + 3] == parts@[i + 3]@);
        match parse_usize(&parts[i + 2]) {
            None => Err(ConfigError::InvalidGridRows(string_of(&parts[i + 2]))),
            Some(rows) => match parse_usize(&parts[i + 3]) {
                None => Err(ConfigError::InvalidGridColumns(string_of(&parts[i + 3]))),
                Some(cols) => if rows < 1 || rows > 5 || cols < 1 || cols > 5 {
                    Err(ConfigError::GridOutOfRange)
                } else {
                    assert(rows * cols <= 25) by (nonlinear_arith)
                        requires
                            rows <= 5,
                            cols <= 5,
                    ;
                    Ok(((SplitType::Grid(rows, cols), rows * cols), 4))
                },
            },
        }
    } else {
        Err(ConfigError::InvalidSplitType(string_of(kind)))
    }
}

/// Stores an output configuration in place of the first one of the same name.
pub fn store_output_exec(outs: &mut Vec<OutputConfig>, o: OutputConfig)
    ensures
        final(outs)@.map_values(|x: OutputConfig| x@) == store_output(
            old(outs)@.map_values(|x: OutputConfig| x@),
            o@,
        ),
{
    let ghost v = old(outs)@.map_values(|x: OutputConfig| x@);
    let n = chars_of(o.name.as_str());
    let mut i: usize = 0;
    assert(v.skip(0) =~= v);
    while i < outs.len()
        invariant
            i <= outs.len(),
            outs@ == old(outs)@,
            v == old(outs)@.map_values(|x: OutputConfig| x@),
            v.len() == outs.len(),
            n@ == o.name@,
            store_output(v, o@) == v.take(i as int) + store_output(v.skip(i as int), o@),
        decreases outs.len() - i,
    {
        let k = chars_of(outs[i].name.as_str());
        let ghost rest = v.skip(i as int);
        assert(rest.len() > 0);
        assert(rest[0] == v[i as int]);
        if eq_chars(&k, &n) {
            outs.set(i, o);
            assert(store_output(rest, o@) == rest.update(0, o@));
            assert(outs@.map_values(|x: OutputConfig| x@) =~= v.take(i as int) + rest.update(0, o@));
            return;
        }
        assert(rest.drop_first() =~= v.skip(i + 1));
        assert(store_output(rest, o@) == seq![rest[0]] + store_output(rest.drop_first(), o@));
        assert(v.take(i + 1) =~= v.take(i as int) + seq![rest[0]]);
        assert(v.take(i as int) + (seq![rest[0]] + store_output(v.skip(i + 1), o@)) =~= (v.take(
            i as int,
        ) + seq![rest[0]]) + store_output(v.skip(i + 1), o@));
        i += 1;
    }
    assert(v.skip(i as int) =~= Seq::<OutputConfig<Seq<char>>>::empty());
    let ghost ov = o@;
    outs.push(o);
    assert(outs@.map_values(|x: OutputConfig| x@) =~= v.take(i as int) + seq![ov]);
}

pub fn parse_output(config: &mut Config, parts: &Vec<Vec<char>>) -> (r: Result<(), ConfigError>)
    ensures
        applied(old(config)@, final(config)@, r, spec_parse_output(old(config)@, views(parts@))),
{
    let ghost ps = views(parts@);
    if parts.len() < 1 {
        return Err(ConfigError::OutputNeedsName);
    }
    assert(ps[0] == parts@[0]@);
    let mut o = OutputConfig {
        name: string_of(&parts[0]),
        resolution: None,
        position: None,
        scale: None,
        transform: None,
        background: None,
        split: None,
    };
    let mut i: usize = 1;
    while i < parts.len()
        invariant
            1 <= i <= parts.len(),
            ps == views(parts@),
            output_params(ps, 1, new_output(ps[0])) == output_params(ps, i as int, o@),
        decreases parts.len() - i,
    {
        let p = &parts[i];
        assert(ps[i as int] == p@);
        proof {
            if i + 1 < parts.len() {
                assert(ps[i + 1] == parts@[i + 1]@);
            }
        }
        if eq_str(p, "scale") && i + 1 < parts.len() {
            match parse_decimal_chars(&parts[i + 1]) {
                None => {
                    if names_non_finite_exec(&parts[i + 1]) {
                        return Err(ConfigError::ScaleOutOfRange);
                    }
                    return Err(ConfigError::InvalidScale(string_of(&parts[i + 1])));
                },
                Some(d) => {
                    let two: u128 = 2;
                    let mut den: u128 = 1;
                    let mut k: u32 = 0;
                    while k < d.frac_digits
                        invariant
                            k <= d.frac_digits <= 18,
                            den == crate::text::pow10(k as nat),
                            den <= 1_000_000_000_000_000_000,
                        decreases d.frac_digits - k,
                    {
                        proof {
                            lemma_pow10_bound(k as nat);
                        }
                        den = den * 10;
                        k += 1;
                    }
                    if d.negative || two * (d.digits as u128) < den || (d.digits as u128) > 4 * den {
                        return Err(ConfigError::ScaleOutOfRange);
                    }
                    o.scale = Some(d);
                    i += 2;
                },
            }
        } else if eq_str(p, "resolution") && i + 1 < parts.len() {
            match int_pair_exec(&parts[i + 1], 'x', false) {
                Err(e) => {
                    return Err(e);
                },
                Ok(res) => {
                    o.resolution = Some(res);
                    i += 2;
                },
            }
        } else if eq_str(p, "position") && i + 1 < parts.len() {
            match int_pair_exec(&parts[i + 1], ',', true) {
                Err(e) => {
                    return Err(e);
                },
                Ok(pos) => {
                    o.position = Some(pos);
                    i += 2;
                },
            }
        } else if eq_str(p, "transform") && i + 1 < parts.len() {
            match transform_name_exec(&parts[i + 1]) {
                None => {
                    return Err(ConfigError::InvalidTransform(string_of(&parts[i + 1])));
                },
                Some(t) => {
                    o.transform = Some(t);
                    i += 2;
                },
            }
        } else if eq_str(p, "split") && parts.len() - i > 2 {
            match split_param_exec(parts, i) {
                Err(e) => {
                    return Err(e);
                },
                Ok((s, n)) => {
                    o.split = Some(s);
                    i += n;
                },
            }
        } else {
            return Err(ConfigError::UnknownOutputParameter(string_of(p)));
        }
    }
    let ghost before = config@;
    store_output_exec(&mut config.outputs, o);
    assert(config@ =~= (ConfigView { outputs: store_output(before.outputs, o@), ..before }));
    Ok(())
}

proof fn lemma_pow10_bound(k: nat)
    requires
        k < 18,
    ensures
        crate::text::pow10(k) <= 100_000_000_000_000_000,
        crate::text::pow10(k) >= 1,
{
    crate::text::lemma_pow10_le(k, 17);
    reveal_with_fuel(crate::text::pow10, 18);
    assert(crate::text::pow10(17) == 100_000_000_000_000_000);
}

fn region_exec(s: &Vec<char>) -> (r: Result<VirtualOutputRegion, ConfigError>)
    ensures
        res_view(r) == region_of(s@),
{
    let ps = split_char(s, ',');
    if ps.len() != 4 {
        return Err(ConfigError::RegionFormat);
    }
    assert(views(ps@)[0] == ps@[0]@ && views(ps@)[1] == ps@[1]@ && views(ps@)[2] == ps@[2]@
        && views(ps@)[3] == ps@[3]@);
    let x = parse_i32(&ps[0]);
    let y = parse_i32(&ps[1]);
    let w = parse_i32(&ps[2]);
    let h = parse_i32(&ps[3]);
    match (x, y, w, h) {
        (None, _, _, _) => Err(ConfigError::InvalidRegionX(string_of(&ps[0]))),
        (Some(_), None, _, _) => Err(ConfigError::InvalidRegionY(string_of(&ps[1]))),
        (Some(_), Some(_), None, _) => Err(ConfigError::InvalidRegionWidth(string_of(&ps[2]))),
        (Some(_), Some(_), Some(_), None) => Err(ConfigError::InvalidRegionHeight(string_of(&ps[3]))),
        (Some(x), Some(y), Some(width), Some(height)) => Ok(
            VirtualOutputRegion { x, y, width, height },
        ),
    }
}

fn strings_exec(v: &Vec<Vec<char>>) -> (r: Vec<String>)
    ensures
        crate::config::strings_view(r@) == views(v@),
{
    let mut r: Vec<String> = Vec::new();
    let mut i: usize = 0;
    while i < v.len()
        invariant
            i <= v.len(),
            crate::config::strings_view(r@) == views(v@).take(i as int),
        decreases v.len() - i,
    {
        let s = string_of(&v[i]);
        let ghost before = r@;
        r.push(s);
        assert(crate::config::strings_view(r@) =~= crate::config::strings_view(before).push(
            v@[i as int]@,
        ));
        i += 1;
        assert(views(v@).take(i as int) =~= views(v@).take(i - 1).push(v@[i - 1]@));
    }
    assert(views(v@).take(i as int) =~= views(v@));
    r
}

fn grid_exec(s: &Vec<char>) -> (r: Result<(usize, usize), ConfigError>)
    ensures
        res_view(r) == grid_of(s@),
{
    let ps = split_char(s, 'x');
    if ps.len() != 2 {
        return Err(ConfigError::GridFormat(string_of(s)));
    }
    assert(views(ps@)[0] == ps@[0]@ && views(ps@)[1] == ps@[1]@);
    match parse_usize(&ps[0]) {
        None => Err(ConfigError::InvalidGridColumns(string_of(&ps[0]))),
        Some(k) => match parse_usize(&ps[1]) {
            None => Err(ConfigError::InvalidGridRows(string_of(&ps[1]))),
            Some(r) => if r < 1 || r > 5 || k < 1 || k > 5 {
                Err(ConfigError::GridOutOfRange)
            } else {
                Ok((k, r))
            },
        },
    }
}

fn merge_direction_exec(w: &Vec<char>) -> (r: Option<Orientation>)
    ensures
        r == merge_direction(w@),
{
    if eq_str(w, "horizontal") || eq_str(w, "h") {
        Some(Orientation::Horizontal)
    } else if eq_str(w, "vertical") || eq_str(w, "v") {
        Some(Orientation::Vertical)
    } else {
        None
    }
}

/// Splits the first output named `name` as `s`, or appends a new output so split.
pub fn set_output_split(outs: &mut Vec<OutputConfig>, name: &Vec<char>, s: (SplitType, usize))
    ensures
        final(outs)@.map_values(|x: OutputConfig| x@) == with_split(
            old(outs)@.map_values(|x: OutputConfig| x@),
            name@,
            s,
        ),
{
    let ghost v = old(outs)@.map_values(|x: OutputConfig| x@);
    let mut i: usize = 0;
    assert(v.skip(0) =~= v);
    while i < outs.len()
        invariant
            i <= outs.len(),
            outs@ == old(outs)@,
            v == old(outs)@.map_values(|x: OutputConfig| x@),
            v.len() == outs.len(),
            with_split(v, name@, s) == v.take(i as int) + with_split(v.skip(i as int), name@, s),
        decreases outs.len() - i,
    {
        let k = chars_of(outs[i].name.as_str());
        let ghost rest = v.skip(i as int);
        assert(rest.len() > 0);
        assert(rest[0] == v[i as int]);
        if eq_chars(&k, name) {
            let mut e = outs.remove(i);
            e.split = Some(s);
            let ghost ev = e@;
            outs.insert(i, e);
            assert(with_split(rest, name@, s) == rest.update(0, ev));
            assert(outs@.map_values(|x: OutputConfig| x@) =~= v.take(i as int) + rest.update(0, ev));
            return;
        }
        assert(rest.drop_first() =~= v.skip(i + 1));
        assert(with_split(rest, name@, s) == seq![rest[0]] + with_split(rest.drop_first(), name@, s));
        assert(v.take(i + 1) =~= v.take(i as int) + seq![rest[0]]);
        assert(v.take(i as int) + (seq![rest[0]] + with_split(v.skip(i + 1), name@, s)) =~= (v.take(
            i as int,
        ) + seq![rest[0]]) + with_split(v.skip(i + 1), name@, s));
        i += 1;
    }
    assert(v.skip(i as int) =~= Seq::<OutputConfig<Seq<char>>>::empty());
    let o = OutputConfig {
        name: string_of(name),
        resolution: None,
        position: None,
        scale: None,
        transform: None,
        background: None,
        split: Some(s),
    };
    let ghost ov = o@;
    outs.push(o);
    assert(outs@.map_values(|x: OutputConfig| x@) =~= v.take(i as int) + seq![ov]);
}

pub fn parse_virtual_output(config: &mut Config, parts: &Vec<Vec<char>>) -> (r: Result<(), ConfigError>)
    ensures
        applied(
            old(config)@,
            final(config)@,
            r,
            spec_parse_virtual_output(old(config)@, views(parts@)),
        ),
{
    let ghost ps = views(parts@);
    if parts.len() >= 2 && eq_str(&parts[1], "split") {
        assert(ps[0] == parts@[0]@ && ps[1] == parts@[1]@);
        if parts.len() < 3 {
            return Err(ConfigError::VirtualOutputNeedsNameAndOutputs);
        }
        assert(ps[2] == parts@[2]@);
        match grid_exec(&parts[2]) {
            Err(e) => Err(e),
            Ok((k, r)) => {
                assert(1 <= r <= 5 && 1 <= k <= 5);
                assert(r * k <= 25) by (nonlinear_arith)
                    requires
                        r <= 5,
                        k <= 5,
                ;
                let ghost before = config@;
                set_output_split(&mut config.outputs, &parts[0], (SplitType::Grid(r, k), r * k));
                assert(config@ =~= (ConfigView {
                    outputs: with_split(
                        before.outputs,
                        ps[0],
                        (SplitType::Grid(r, k), (r * k) as usize),
                    ),
                    ..before
                }));
                Ok(())
            },
        }
    } else if parts.len() >= 2 && eq_str(&parts[1], "merge") {
        assert(ps[0] == parts@[0]@ && ps[1] == parts@[1]@);
        if parts.len() < 3 {
            return Err(ConfigError::VirtualOutputNeedsNameAndOutputs);
        }
        assert(ps[2] == parts@[2]@);
        match merge_direction_exec(&parts[2]) {
            None => Err(ConfigError::InvalidMergeDirection(string_of(&parts[2]))),
            Some(o) => {
                let outputs = strings_exec(&split_char(&parts[0], ','));
                let vo = VirtualOutputConfig {
                    name: string_of(&parts[0]),
                    outputs,
                    region: None,
                    merge: Some(o),
                };
                let ghost before = config@;
                let ghost vv = vo@;
                config.virtual_outputs.push(vo);
                assert(config@ =~= (ConfigView {
                    virtual_outputs: before.virtual_outputs.push(vv),
                    ..before
                }));
                Ok(())
            },
        }
    } else {
        proof {
            if parts.len() >= 2 {
                assert(ps[1] == parts@[1]@);
            }
        }
        if parts.len() < 4 {
            return Err(ConfigError::VirtualOutputNeedsNameAndOutputs);
        }
        assert(ps[0] == parts@[0]@ && ps[1] == parts@[1]@ && ps[2] == parts@[2]@ && ps[3]
            == parts@[3]@);
        if !eq_str(&parts[1], "outputs") {
            return Err(ConfigError::VirtualOutputNeedsOutputsKeyword);
        }
        let outputs = strings_exec(&split_char(&parts[2], ','));
        let region = if parts.len() >= 5 && eq_str(&parts[3], "region") {
            assert(ps[4] == parts@[4]@);
            match region_exec(&parts[4]) {
                Ok(r) => Some(r),
                Err(e) => {
                    return Err(e);
                },
            }
        } else {
            None
        };
        let vo = VirtualOutputConfig { name: string_of(&parts[0]), outputs, region, merge: None };
        let ghost before = config@;
        let ghost vv = vo@;
        config.virtual_outputs.push(vo);
        assert(config@ =~= (ConfigView { virtual_outputs: before.virtual_outputs.push(vv), ..before }));
        Ok(())
    }
}

// ----- gaps, border, font -----
pub fn parse_gaps(config: &mut Config, parts: &Vec<Vec<char>>) -> (r: Result<(), ConfigError>)
    ensures
        applied(old(config)@, final(config)@, r, spec_parse_gaps(old(config)@, views(parts@))),
{
    let ghost ps = views(parts@);
    if parts.len() < 2 {
        return Ok(());
    }
    assert(ps[0] == parts@[0]@ && ps[1] == parts@[1]@);
    let value = match parse_i32(&parts[1]) {
        None => {
            return Err(ConfigError::InvalidInteger(string_of(&parts[1])));
        },
        Some(v) => Some(v),
    };
    let k = &parts[0];
    if eq_str(k, "inner") {
        config.gaps.inner = value;
    } else if eq_str(k, "outer") {
        config.gaps.outer = value;
    } else if eq_str(k, "top") {
        config.gaps.top = value;
    } else if eq_str(k, "bottom") {
        config.gaps.bottom = value;
    } else if eq_str(k, "left") {
        config.gaps.left = value;
    } else if eq_str(k, "right") {
        config.gaps.right = value;
    }
    assert(config@.variables =~= old(config)@.variables);
    Ok(())
}

pub fn parse_border(config: &mut Config, parts: &Vec<Vec<char>>) -> (r: Result<(), ConfigError>)
    ensures
        applied(old(config)@, final(config)@, r, spec_parse_border(old(config)@, views(parts@))),
{
    let ghost ps = views(parts@);
    if parts.len() >= 2 && eq_str(&parts[0], "pixel") {
        assert(ps[0] == parts@[0]@ && ps[1] == parts@[1]@);
        match parse_i32(&parts[1]) {
            None => {
                return Err(ConfigError::InvalidInteger(string_of(&parts[1])));
            },
            Some(w) => {
                config.border.width = w;
            },
        }
    } else {
        proof {
            if parts.len() >= 2 {
                assert(ps[0] == parts@[0]@);
            }
        }
    }
    Ok(())
}

pub fn parse_font(config: &mut Config, parts: &Vec<Vec<char>>) -> (r: Result<(), ConfigError>)
    ensures
        r is Ok,
        final(config)@ == spec_parse_font(old(config)@, views(parts@)),
{
    let ghost ps = views(parts@);
    if parts.len() >= 2 && eq_str(&parts[0], "pango:") {
        assert(ps[0] == parts@[0]@);
        let f = join_from(parts, 1, ' ');
        config.font = string_of(&f);
    } else {
        proof {
            if parts.len() >= 2 {
                assert(ps[0] == parts@[0]@);
            }
        }
    }
    Ok(())
}

// ----- input blocks -----
fn first_index_exec(s: &Vec<char>, x: char) -> (r: Option<usize>)
    ensures
        match first_index(s@, x) {
            Some(i) => r == Some(i as usize) && 0 <= i < s.len(),
            None => r is None,
        },
{
    let mut i: usize = 0;
    assert(s@.skip(0) =~= s@);
    while i < s.len()
        invariant
            i <= s.len(),
            forall|j: int| 0 <= j < i ==> s@[j] != x,
            first_index(s@, x) == (match first_index(s@.skip(i as int), x) {
                Some(k) => Some(k + i),
                None => None,
            }),
        decreases s.len() - i,
    {
        assert(s@.skip(i as int)[0] == s@[i as int]);
        if s[i] == x {
            return Some(i);
        }
        assert(s@.skip(i as int).drop_first() =~= s@.skip(i + 1));
        i += 1;
    }
    None
}

fn last_index_exec(s: &Vec<char>, x: char) -> (r: Option<usize>)
    ensures
        match last_index(s@, x) {
            Some(i) => r == Some(i as usize) && 0 <= i < s.len(),
            None => r is None,
        },
{
    let mut k: usize = s.len();
    assert(s@.take(k as int) =~= s@);
    while k > 0
        invariant
            k <= s.len(),
            last_index(s@, x) == last_index(s@.take(k as int), x),
        decreases k,
    {
        assert(s@.take(k as int).last() == s@[k - 1]);
        if s[k - 1] == x {
            return Some(k - 1);
        }
        assert(s@.take(k as int).drop_last() =~= s@.take(k - 1));
        k -= 1;
    }
    None
}

fn switch_exec(v: &Vec<char>) -> (r: Option<bool>)
    ensures
        r == switch_value(v@),
{
    if eq_str(v, "enabled") || eq_str(v, "yes") || eq_str(v, "true") || eq_str(v, "on") {
        Some(true)
    } else if eq_str(v, "disabled") || eq_str(v, "no") || eq_str(v, "false") || eq_str(v, "off") {
        Some(false)
    } else {
        None
    }
}

fn input_setting_exec(ic: InputConfig, k: &Vec<char>, v: &Vec<char>) -> (r: Result<
    InputConfig,
    ConfigError,
>)
    ensures
        match input_setting(ic@, k@, v@) {
            Ok(x) => r is Ok && r->Ok_0@ == x,
            Err(e) => r is Err && r->Err_0@ == e,
        },
{
    let mut ic = ic;
    if eq_str(k, "repeat_delay") {
        match parse_u32(v) {
            None => {
                return Err(ConfigError::InvalidInteger(string_of(v)));
            },
            Some(n) => {
                ic.repeat_delay = Some(n);
            },
        }
    } else if eq_str(k, "repeat_rate") {
        match parse_u32(v) {
            None => {
                return Err(ConfigError::InvalidInteger(string_of(v)));
            },
            Some(n) => {
                ic.repeat_rate = Some(n);
            },
        }
    } else if eq_str(k, "xkb_layout") {
        ic.xkb_layout = Some(string_of(v));
    } else if eq_str(k, "xkb_variant") {
        ic.xkb_variant = Some(string_of(v));
    } else if eq_str(k, "xkb_model") {
        ic.xkb_model = Some(string_of(v));
    } else if eq_str(k, "xkb_options") {
        ic.xkb_options = Some(string_of(v));
    } else if eq_str(k, "accel_speed") {
        match parse_decimal_chars(v) {
            None => {
                return Err(ConfigError::InvalidFloat(string_of(v)));
            },
            Some(d) => {
                ic.accel_speed = Some(d);
            },
        }
    } else if eq_str(k, "accel_profile") {
        ic.accel_profile = if eq_str(v, "flat") {
            Some(AccelProfile::Flat)
        } else if eq_str(v, "adaptive") {
            Some(AccelProfile::Adaptive)
        } else {
            None
        };
    } else if eq_str(k, "natural_scroll") {
        ic.natural_scroll = switch_exec(v);
    } else if eq_str(k, "tap") {
        ic.tap = switch_exec(v);
    } else if eq_str(k, "tap_button_map") {
        ic.tap_button_map = if eq_str(v, "lrm") {
            Some(TapButtonMap::Lrm)
        } else if eq_str(v, "lmr") {
            Some(TapButtonMap::Lmr)
        } else {
            None
        };
    } else if eq_str(k, "scroll_method") {
        ic.scroll_method = if eq_str(v, "two_finger") {
            Some(ScrollMethod::TwoFinger)
        } else if eq_str(v, "edge") {
            Some(ScrollMethod::Edge)
        } else if eq_str(v, "on_button_down") {
            Some(ScrollMethod::OnButtonDown)
        } else {
            None
        };
    } else if eq_str(k, "left_handed") {
        ic.left_handed = switch_exec(v);
    } else if eq_str(k, "middle_emulation") {
        ic.middle_emulation = switch_exec(v);
    }
    Ok(ic)
}

/// Reads an `input <identifier> { <settings> }` line.
pub fn parse_input(config: &mut Config, line: &Vec<char>) -> (r: Result<(), ConfigError>)
    requires
        starts_with(line@, "input"@),
    ensures
        applied(old(config)@, final(config)@, r, spec_parse_input(old(config)@, line@)),
{
    proof {
        reveal_strlit("input");
    }
    let after = slice(line, 5, line.len());
    assert(after@ =~= line@.skip(5));
    let rest = trim_start_chars(&after);
    let b = match first_index_exec(&rest, '{') {
        None => {
            return Err(ConfigError::MissingInputBrace);
        },
        Some(b) => b,
    };
    let e = match last_index_exec(&rest, '}') {
        None => {
            return Ok(());
        },
        Some(e) => e,
    };
    if e < b + 1 {
        return Err(ConfigError::InputBracesCrossed);
    }
    let id = trim_chars(&slice(&rest, 0, b));
    assert(rest@.subrange(0, b as int) =~= rest@.take(b as int));
    let content = slice(&rest, b + 1, e);
    let ws = split_whitespace(&content);
    let ghost w = views(ws@);
    let mut ic = InputConfig {
        identifier: string_of(&id),
        repeat_delay: None,
        repeat_rate: None,
        xkb_layout: None,
        xkb_variant: None,
        xkb_model: None,
        xkb_options: None,
        accel_speed: None,
        accel_profile: None,
        natural_scroll: None,
        tap: None,
        tap_button_map: None,
        scroll_method: None,
        left_handed: None,
        middle_emulation: None,
    };
    let mut i: usize = 0;
    while ws.len() - i > 1
        invariant
            w == views(ws@),
            i <= ws.len(),
            rest@ == input_rest(line@),
            first_index(rest@, '{') == Some(b as int),
            last_index(rest@, '}') == Some(e as int),
            b + 1 <= e,
            w == words(rest@.subrange(b + 1, e as int)),
            config@ == old(config)@,
            input_settings(w, 0, new_input(trim(rest@.take(b as int)))) == input_settings(
                w,
                i as int,
                ic@,
            ),
        decreases ws.len() - i,
    {
        assert(w[i as int] == ws@[i as int]@ && w[i + 1] == ws@[i + 1]@);
        match input_setting_exec(ic, &ws[i], &ws[i + 1]) {
            Err(err) => {
                return Err(err);
            },
            Ok(ic2) => {
                ic = ic2;
            },
        }
        i += 2;
    }
    let ghost before = config@;
    let ghost iv = ic@;
    config.input_configs.push(ic);
    assert(config@ =~= (ConfigView { input_configs: before.input_configs.push(iv), ..before }));
    Ok(())
}

// ----- lines -----
proof fn lemma_words_acc_keeps(s: Seq<char>, acc: Seq<Seq<char>>, cur: Seq<char>)
    ensures
        words_acc(s, acc, cur).len() >= acc.len(),
        words_acc(s, acc, cur).take(acc.len() as int) == acc,
    decreases s.len(),
{
    if s.len() == 0 {
        assert(crate::text::flush(acc, cur).take(acc.len() as int) =~= acc);
    } else if is_ws(s[0]) {
        let acc2 = crate::text::flush(acc, cur);
        lemma_words_acc_keeps(s.drop_first(), acc2, Seq::empty());
        assert(words_acc(s.drop_first(), acc2, Seq::empty()).take(acc2.len() as int).take(
            acc.len() as int,
        ) =~= words_acc(s.drop_first(), acc2, Seq::empty()).take(acc.len() as int));
        assert(acc2.take(acc.len() as int) =~= acc);
    } else {
        lemma_words_acc_keeps(s.drop_first(), acc, cur.push(s[0]));
    }
}

proof fn lemma_first_word(s: Seq<char>, cur: Seq<char>)
    requires
        cur.len() > 0 || (s.len() > 0 && !is_ws(s[0])),
    ensures
        words_acc(s, Seq::empty(), cur).len() > 0,
        starts_with(cur + s, words_acc(s, Seq::empty(), cur)[0]),
    decreases s.len(),
{
    let e = Seq::<Seq<char>>::empty();
    if s.len() == 0 {
        assert(cur + s =~= cur);
        assert(starts_with(cur, cur)) by {
            assert(cur.take(cur.len() as int) =~= cur);
        }
    } else if is_ws(s[0]) {
        lemma_words_acc_keeps(s.drop_first(), e.push(cur), Seq::empty());
        let r = words_acc(s.drop_first(), e.push(cur), Seq::empty());
        assert(r.take(1)[0] == r[0]);
        assert((cur + s).take(cur.len() as int) =~= cur);
    } else {
        lemma_first_word(s.drop_first(), cur.push(s[0]));
        assert(cur.push(s[0]) + s.drop_first() =~= cur + s);
    }
}

/// A line without leading whitespace whose first word is `input` starts with
/// that word.
pub proof fn lemma_input_line_prefix(line: Seq<char>)
    requires
        line.len() > 0,
        !is_ws(line[0]),
        words(line)[0] == "input"@,
    ensures
        starts_with(line, "input"@),
{
    lemma_first_word(line, Seq::empty());
    assert(Seq::<char>::empty() + line =~= line);
}

/// Reads one configuration line (without leading whitespace) into `config`.
pub fn parse_focus_follows_mouse(config: &mut Config, parts: &Vec<Vec<char>>) -> (r: Result<
    (),
    ConfigError,
>)
    ensures
        applied(
            old(config)@,
            final(config)@,
            r,
            spec_parse_focus_follows_mouse(old(config)@, views(parts@)),
        ),
{
    if parts.len() == 0 {
        return Err(ConfigError::FocusFollowsMouseNeedsValue);
    }
    assert(views(parts@)[0] == parts@[0]@);
    config.set_variable("focus_follows_mouse".to_owned(), string_of(&parts[0]));
    Ok(())
}

pub fn parse_line(config: &mut Config, line: &Vec<char>) -> (r: Result<(), ConfigError>)
    requires
        line@.len() > 0 ==> !is_ws(line@[0]),
    ensures
        applied(old(config)@, final(config)@, r, spec_parse_line(old(config)@, line@)),
{
    let parts = split_whitespace(line);
    let ghost ps = views(parts@);
    if parts.len() == 0 {
        return Err(ConfigError::EmptyLine);
    }
    let f = &parts[0];
    assert(ps[0] == f@);
    let args = tail(&parts, 1);
    if eq_str(f, "set") {
        parse_set(config, &args)
    } else if eq_str(f, "bindsym") {
        parse_bindsym(config, &args)
    } else if eq_str(f, "exec") {
        parse_exec(config, &args)
    } else if eq_str(f, "output") {
        parse_output(config, &args)
    } else if eq_str(f, "virtual_output") {
        parse_virtual_output(config, &args)
    } else if eq_str(f, "workspace") {
        Ok(())
    } else if eq_str(f, "focus_follows_mouse") {
        parse_focus_follows_mouse(config, &args)
    } else if eq_str(f, "gaps") {
        parse_gaps(config, &args)
    } else if eq_str(f, "default_border") {
        parse_border(config, &args)
    } else if eq_str(f, "font") {
        parse_font(config, &args)
    } else if eq_str(f, "input") {
        proof {
            assert(line@.len() > 0) by {
                if line@.len() == 0 {
                    assert(words(line@) =~= Seq::<Seq<char>>::empty());
                }
            }
            lemma_input_line_prefix(line@);
        }
        parse_input(config, line)
    } else {
        Ok(())
    }
}

proof fn lemma_trim_lead(s: Seq<char>)
    ensures
        trim(s).len() > 0 ==> !is_ws(trim(s)[0]),
{
    lemma_trim_start_lead(s);
    lemma_trim_end_keeps_lead(trim_start(s));
}

proof fn lemma_trim_start_lead(s: Seq<char>)
    ensures
        trim_start(s).len() > 0 ==> !is_ws(trim_start(s)[0]),
    decreases s.len(),
{
    if s.len() > 0 && is_ws(s[0]) {
        lemma_trim_start_lead(s.drop_first());
    }
}

proof fn lemma_trim_end_keeps_lead(s: Seq<char>)
    ensures
        crate::text::trim_end(s).len() > 0 ==> crate::text::trim_end(s)[0] == s[0],
    decreases s.len(),
{
    if s.len() > 0 && is_ws(s.last()) {
        lemma_trim_end_keeps_lead(s.drop_last());
    }
}

/// A warning for a configuration line that could not be read.
#[derive(Debug, Clone)]
pub struct LineWarning {
    /// The line, trimmed
    pub line: String,
    pub error: ConfigError,
}

/// Reads a configuration text, and reports each line that could not be read.
pub fn parse_config_reporting(content: &str) -> (r: (Config, Vec<LineWarning>))
    ensures
        r.0@ == spec_parse_config(content@),
{
    let text = chars_of(content);
    let ls = split_lines(&text);
    let ghost lv = views(ls@);
    let mut config = Config::default();
    let mut warnings: Vec<LineWarning> = Vec::new();
    let mut i: usize = 0;
    while i < ls.len()
        invariant
            i <= ls.len(),
            lv == views(ls@),
            lv == lines(content@),
            spec_parse_config(content@) == apply_lines(config@, lv, i as int),
        decreases ls.len() - i,
    {
        assert(lv[i as int] == ls@[i as int]@);
        let t = trim_chars(&ls[i]);
        if t.len() > 0 && t[0] != '#' {
            proof {
                lemma_trim_lead(ls@[i as int]@);
            }
            match parse_line(&mut config, &t) {
                Ok(()) => {},
                Err(e) => {
                    warnings.push(LineWarning { line: string_of(&t), error: e });
                },
            }
        }
        i += 1;
    }
    (config, warnings)
}

/// Parse a sway config file
pub fn parse_config(content: &str) -> (r: Result<Config, ConfigError>)
    ensures
        r matches Ok(c) && c@ == spec_parse_config(content@),
{
    let (config, _warnings) = parse_config_reporting(content);
    Ok(config)
}

} // verus!
