//! Configuration model: the i3/sway-style settings that the compositor reads
//! from its configuration file, and the operations on variables.
//!
//! Each type that holds text is generic over the text type `S`: with `String`
//! it is the executable value, with `Seq<char>` it is that value's view.
use crate::text::{chars_of, eq_chars, replace_all, replace_chars, slice, string_of, Decimal};
use vstd::prelude::*;

pub mod parser;

verus! {

/// A key symbol, by its X11 keysym number.
#[derive(Debug, Clone, Copy, PartialEq, Eq, Structural)]
pub struct Keysym {
    pub raw: u32,
}

impl Keysym {
    pub fn new(raw: u32) -> (k: Keysym)
        ensures
            k.raw == raw,
    {
        Keysym { raw }
    }

    pub fn raw(&self) -> (r: u32)
        ensures
            r == self.raw,
    {
        self.raw
    }
}

/// The state of the keyboard modifiers.
#[derive(Debug, Clone, Copy, PartialEq, Eq, Structural)]
pub struct ModifiersState {
    pub ctrl: bool,
    pub alt: bool,
    pub shift: bool,
    pub caps_lock: bool,
    pub logo: bool,
    pub num_lock: bool,
    pub iso_level3_shift: bool,
    pub iso_level5_shift: bool,
}

pub open spec fn no_modifiers() -> ModifiersState {
    ModifiersState {
        ctrl: false,
        alt: false,
        shift: false,
        caps_lock: false,
        logo: false,
        num_lock: false,
        iso_level3_shift: false,
        iso_level5_shift: false,
    }
}

impl Default for ModifiersState {
    fn default() -> (m: Self)
        ensures
            m == no_modifiers(),
    {
        ModifiersState {
            ctrl: false,
            alt: false,
            shift: false,
            caps_lock: false,
            logo: false,
            num_lock: false,
            iso_level3_shift: false,
            iso_level5_shift: false,
        }
    }
}

#[derive(Debug, Clone, Copy, PartialEq, Eq, Structural)]
pub enum Direction {
    Left,
    Right,
    Up,
    Down,
}

#[derive(Debug, Clone)]
pub enum WorkspaceTarget<S = String> {
    /// Workspace by number (1-10)
    Number(u8),
    /// Workspace by name
    Name(S),
    /// Previous workspace
    Previous,
    /// Next workspace
    Next,
}

#[derive(Debug, Clone, Copy, PartialEq, Eq, Structural)]
pub enum Orientation {
    Horizontal,
    Vertical,
}

#[derive(Debug, Clone, Copy, PartialEq, Eq, Structural)]
pub enum LayoutCommand {
    Stacking,
    Tabbed,
    ToggleSplit,
    SplitH,
    SplitV,
}

#[derive(Debug, Clone, Copy, PartialEq, Eq, Structural)]
pub enum ScratchpadCommand {
    Show,
    Move,
}

/// A command that a key binding runs.
#[derive(Debug, Clone)]
pub enum Command<S = String> {
    /// Execute a program
    Exec(S),
    /// Kill focused window
    Kill,
    /// Reload configuration
    Reload,
    /// Exit compositor
    Exit,
    /// Focus window in direction
    Focus(Direction),
    /// Move window in direction
    Move(Direction),
    /// Switch to workspace
    Workspace(WorkspaceTarget<S>),
    /// Move container to workspace
    MoveToWorkspace(WorkspaceTarget<S>),
    /// Layout commands
    Layout(LayoutCommand),
    /// Fullscreen toggle (default: virtual output)
    Fullscreen,
    /// Container fullscreen toggle
    FullscreenContainer,
    /// Virtual output fullscreen toggle
    FullscreenVirtualOutput,
    /// Physical output fullscreen toggle
    FullscreenPhysicalOutput,
    /// Floating toggle
    FloatingToggle,
    /// Focus mode toggle (tiling/floating)
    FocusModeToggle,
    /// Resize mode
    ResizeMode,
    /// Split orientation
    Split(Orientation),
    /// Move workspace to output
    MoveWorkspaceToOutput(Direction),
    /// Scratchpad commands
    Scratchpad(ScratchpadCommand),
    /// Custom/unimplemented command
    Raw(S),
    /// Debug command to swap first two windows
    DebugSwapWindows,
    /// Set horizontal split
    SplitHorizontal,
    /// Set vertical split
    SplitVertical,
    /// Set automatic (BSP) split
    SplitAutomatic,
    /// Move tab left in tabbed/stacked container
    MoveTabLeft,
    /// Move tab right in tabbed/stacked container
    MoveTabRight,
}

#[derive(Debug, Clone)]
pub struct Keybinding<S = String> {
    pub modifiers: ModifiersState,
    pub key: Keysym,
    pub command: Command<S>,
}

/// How a physical output is divided into virtual outputs.
#[derive(Debug, Clone, Copy, PartialEq, Eq, Structural)]
pub enum SplitType {
    Horizontal,
    Vertical,
    Grid(usize, usize),
}

#[derive(Debug, Clone)]
pub struct BackgroundConfig<S = String> {
    pub path: S,
    /// fill, stretch, fit, center, tile
    pub mode: S,
}

#[derive(Debug, Clone)]
pub struct OutputConfig<S = String> {
    pub name: S,
    pub resolution: Option<(i32, i32)>,
    pub position: Option<(i32, i32)>,
    pub scale: Option<Decimal>,
    pub transform: Option<S>,
    pub background: Option<BackgroundConfig<S>>,
    pub split: Option<(SplitType, usize)>,
}

#[derive(Debug, Clone, Copy, PartialEq, Eq, Structural)]
pub struct VirtualOutputRegion {
    pub x: i32,
    pub y: i32,
    pub width: i32,
    pub height: i32,
}

#[derive(Debug, Clone)]
pub struct VirtualOutputConfig {
    /// Name of the virtual output
    pub name: String,
    /// Physical outputs that make up this virtual output
    pub outputs: Vec<String>,
    /// Optional custom region within the physical outputs
    pub region: Option<VirtualOutputRegion>,
    /// For outputs merged into one, the direction in which they are laid side by side
    pub merge: Option<Orientation>,
}

#[verifier::ext_equal]
pub struct VirtualOutputConfigView {
    pub name: Seq<char>,
    pub outputs: Seq<Seq<char>>,
    pub region: Option<VirtualOutputRegion>,
    pub merge: Option<Orientation>,
}

#[derive(Debug, Clone)]
pub struct WorkspaceConfig<S = String> {
    pub number: u8,
    pub output: Option<S>,
}

#[derive(Debug, Clone, Copy, PartialEq, Eq, Structural)]
pub struct GapConfig {
    pub inner: Option<i32>,
    pub outer: Option<i32>,
    pub top: Option<i32>,
    pub bottom: Option<i32>,
    pub left: Option<i32>,
    pub right: Option<i32>,
    pub smart: bool,
}

#[derive(Debug, Clone, Copy, PartialEq, Eq, Structural)]
pub struct BorderConfig {
    pub width: i32,
    pub floating_width: i32,
}

#[derive(Debug, Clone, Copy, PartialEq, Eq, Structural)]
pub enum AccelProfile {
    Flat,
    Adaptive,
}

#[derive(Debug, Clone, Copy, PartialEq, Eq, Structural)]
pub enum TapButtonMap {
    Lrm,
    Lmr,
}

#[derive(Debug, Clone, Copy, PartialEq, Eq, Structural)]
pub enum ScrollMethod {
    TwoFinger,
    Edge,
    OnButtonDown,
}

/// Settings of an `input <identifier> { ... }` block.
#[derive(Debug, Clone)]
pub struct InputConfig<S = String> {
    pub identifier: S,
    pub repeat_delay: Option<u32>,
    pub repeat_rate: Option<u32>,
    pub xkb_layout: Option<S>,
    pub xkb_variant: Option<S>,
    pub xkb_model: Option<S>,
    pub xkb_options: Option<S>,
    pub accel_speed: Option<Decimal>,
    pub accel_profile: Option<AccelProfile>,
    pub natural_scroll: Option<bool>,
    pub tap: Option<bool>,
    pub tap_button_map: Option<TapButtonMap>,
    pub scroll_method: Option<ScrollMethod>,
    pub left_handed: Option<bool>,
    pub middle_emulation: Option<bool>,
}

#[derive(Debug, Clone)]
pub struct Config {
    /// Variables defined with 'set', in the order of their first definition
    pub variables: Vec<(String, String)>,
    /// Keybindings
    pub keybindings: Vec<Keybinding>,
    /// Output configurations
    pub outputs: Vec<OutputConfig>,
    /// Virtual output configurations
    pub virtual_outputs: Vec<VirtualOutputConfig>,
    /// Workspace configurations
    pub workspaces: Vec<WorkspaceConfig>,
    /// Gap settings
    pub gaps: GapConfig,
    /// Border settings
    pub border: BorderConfig,
    /// Font settings
    pub font: String,
    /// Startup commands (exec without keybinding)
    pub startup_commands: Vec<String>,
    /// Input device settings
    pub input_configs: Vec<InputConfig>,
}

#[verifier::ext_equal]
pub struct ConfigView {
    pub variables: Seq<(Seq<char>, Seq<char>)>,
    pub keybindings: Seq<Keybinding<Seq<char>>>,
    pub outputs: Seq<OutputConfig<Seq<char>>>,
    pub virtual_outputs: Seq<VirtualOutputConfigView>,
    pub workspaces: Seq<WorkspaceConfig<Seq<char>>>,
    pub gaps: GapConfig,
    pub border: BorderConfig,
    pub font: Seq<char>,
    pub startup_commands: Seq<Seq<char>>,
    pub input_configs: Seq<InputConfig<Seq<char>>>,
}

// ----- views -----
pub open spec fn opt_view(o: Option<String>) -> Option<Seq<char>> {
    match o {
        Some(s) => Some(s@),
        None => None,
    }
}

pub open spec fn strings_view(v: Seq<String>) -> Seq<Seq<char>> {
    v.map_values(|s: String| s@)
}

impl View for WorkspaceTarget<String> {
    type V = WorkspaceTarget<Seq<char>>;

    open spec fn view(&self) -> WorkspaceTarget<Seq<char>> {
        match self {
            WorkspaceTarget::Number(n) => WorkspaceTarget::Number(*n),
            WorkspaceTarget::Name(s) => WorkspaceTarget::Name(s@),
            WorkspaceTarget::Previous => WorkspaceTarget::Previous,
            WorkspaceTarget::Next => WorkspaceTarget::Next,
        }
    }
}

impl View for Command<String> {
    type V = Command<Seq<char>>;

    open spec fn view(&self) -> Command<Seq<char>> {
        match self {
            Command::Exec(s) => Command::Exec(s@),
            Command::Kill => Command::Kill,
            Command::Reload => Command::Reload,
            Command::Exit => Command::Exit,
            Command::Focus(d) => Command::Focus(*d),
            Command::Move(d) => Command::Move(*d),
            Command::Workspace(t) => Command::Workspace(t@),
            Command::MoveToWorkspace(t) => Command::MoveToWorkspace(t@),
            Command::Layout(l) => Command::Layout(*l),
            Command::Fullscreen => Command::Fullscreen,
            Command::FullscreenContainer => Command::FullscreenContainer,
            Command::FullscreenVirtualOutput => Command::FullscreenVirtualOutput,
            Command::FullscreenPhysicalOutput => Command::FullscreenPhysicalOutput,
            Command::FloatingToggle => Command::FloatingToggle,
            Command::FocusModeToggle => Command::FocusModeToggle,
            Command::ResizeMode => Command::ResizeMode,
            Command::Split(o) => Command::Split(*o),
            Command::MoveWorkspaceToOutput(d) => Command::MoveWorkspaceToOutput(*d),
            Command::Scratchpad(c) => Command::Scratchpad(*c),
            Command::Raw(s) => Command::Raw(s@),
            Command::DebugSwapWindows => Command::DebugSwapWindows,
            Command::SplitHorizontal => Command::SplitHorizontal,
            Command::SplitVertical => Command::SplitVertical,
            Command::SplitAutomatic => Command::SplitAutomatic,
            Command::MoveTabLeft => Command::MoveTabLeft,
            Command::MoveTabRight => Command::MoveTabRight,
        }
    }
}

impl View for Keybinding<String> {
    type V = Keybinding<Seq<char>>;

    open spec fn view(&self) -> Keybinding<Seq<char>> {
        Keybinding { modifiers: self.modifiers, key: self.key, command: self.command@ }
    }
}

impl View for BackgroundConfig<String> {
    type V = BackgroundConfig<Seq<char>>;

    open spec fn view(&self) -> BackgroundConfig<Seq<char>> {
        BackgroundConfig { path: self.path@, mode: self.mode@ }
    }
}

pub open spec fn background_view(b: Option<BackgroundConfig<String>>) -> Option<
    BackgroundConfig<Seq<char>>,
> {
    match b {
        Some(b) => Some(b@),
        None => None,
    }
}

impl View for OutputConfig<String> {
    type V = OutputConfig<Seq<char>>;

    open spec fn view(&self) -> OutputConfig<Seq<char>> {
        OutputConfig {
            name: self.name@,
            resolution: self.resolution,
            position: self.position,
            scale: self.scale,
            transform: opt_view(self.transform),
            background: background_view(self.background),
            split: self.split,
        }
    }
}

impl View for VirtualOutputConfig {
    type V = VirtualOutputConfigView;

    open spec fn view(&self) -> VirtualOutputConfigView {
        VirtualOutputConfigView {
            name: self.name@,
            outputs: strings_view(self.outputs@),
            region: self.region,
            merge: self.merge,
        }
    }
}

impl View for WorkspaceConfig<String> {
    type V = WorkspaceConfig<Seq<char>>;

    open spec fn view(&self) -> WorkspaceConfig<Seq<char>> {
        WorkspaceConfig { number: self.number, output: opt_view(self.output) }
    }
}

impl View for InputConfig<String> {
    type V = InputConfig<Seq<char>>;

    open spec fn view(&self) -> InputConfig<Seq<char>> {
        InputConfig {
            identifier: self.identifier@,
            repeat_delay: self.repeat_delay,
            repeat_rate: self.repeat_rate,
            xkb_layout: opt_view(self.xkb_layout),
            xkb_variant: opt_view(self.xkb_variant),
            xkb_model: opt_view(self.xkb_model),
            xkb_options: opt_view(self.xkb_options),
            accel_speed: self.accel_speed,
            accel_profile: self.accel_profile,
            natural_scroll: self.natural_scroll,
            tap: self.tap,
            tap_button_map: self.tap_button_map,
            scroll_method: self.scroll_method,
            left_handed: self.left_handed,
            middle_emulation: self.middle_emulation,
        }
    }
}

pub open spec fn variables_view(v: Seq<(String, String)>) -> Seq<(Seq<char>, Seq<char>)> {
    v.map_values(|p: (String, String)| (p.0@, p.1@))
}

impl View for Config {
    type V = ConfigView;

    open spec fn view(&self) -> ConfigView {
        ConfigView {
            variables: variables_view(self.variables@),
            keybindings: self.keybindings@.map_values(|k: Keybinding| k@),
            outputs: self.outputs@.map_values(|o: OutputConfig| o@),
            virtual_outputs: self.virtual_outputs@.map_values(|v: VirtualOutputConfig| v@),
            workspaces: self.workspaces@.map_values(|w: WorkspaceConfig| w@),
            gaps: self.gaps,
            border: self.border,
            font: self.font@,
            startup_commands: strings_view(self.startup_commands@),
            input_configs: self.input_configs@.map_values(|i: InputConfig| i@),
        }
    }
}

// ----- defaults -----
pub open spec fn default_gaps() -> GapConfig {
    GapConfig {
        inner: None,
        outer: None,
        top: None,
        bottom: Some(7),
        left: Some(7),
        right: Some(7),
        smart: false,
    }
}

pub open spec fn default_border() -> BorderConfig {
    BorderConfig { width: 2, floating_width: 2 }
}

/// The font that a configuration starts with.
pub open spec fn default_font() -> Seq<char> {
    seq!['m', 'o', 'n', 'o', 's', 'p', 'a', 'c', 'e', ' ', '1', '0']
}

pub open spec fn default_config() -> ConfigView {
    ConfigView {
        variables: Seq::empty(),
        keybindings: Seq::empty(),
        outputs: Seq::empty(),
        virtual_outputs: Seq::empty(),
        workspaces: Seq::empty(),
        gaps: default_gaps(),
        border: default_border(),
        font: default_font(),
        startup_commands: Seq::empty(),
        input_configs: Seq::empty(),
    }
}

impl Default for GapConfig {
    fn default() -> (g: Self)
        ensures
            g == default_gaps(),
    {
        GapConfig {
            inner: None,
            outer: None,
            top: None,
            bottom: Some(7),
            left: Some(7),
            right: Some(7),
            smart: false,
        }
    }
}

impl Default for BorderConfig {
    fn default() -> (b: Self)
        ensures
            b == default_border(),
    {
        BorderConfig { width: 2, floating_width: 2 }
    }
}

impl Default for Config {
    fn default() -> (c: Self)
        ensures
            c@ == default_config(),
    {
        let font = chars_of("monospace 10");
        proof {
            reveal_strlit("monospace 10");
        }
        assert(font@ =~= default_font());
        let c = Config {
            variables: Vec::new(),
            keybindings: Vec::new(),
            outputs: Vec::new(),
            virtual_outputs: Vec::new(),
            workspaces: Vec::new(),
            gaps: GapConfig::default(),
            border: BorderConfig::default(),
            font: string_of(&font),
            startup_commands: Vec::new(),
            input_configs: Vec::new(),
        };
        assert(c@.variables =~= Seq::empty());
        assert(c@.keybindings =~= Seq::empty());
        assert(c@.outputs =~= Seq::empty());
        assert(c@.virtual_outputs =~= Seq::empty());
        assert(c@.workspaces =~= Seq::empty());
        assert(c@.startup_commands =~= Seq::empty());
        assert(c@.input_configs =~= Seq::empty());
        c
    }
}

// ----- variables -----
/// The value of the variable `name`: that of its first definition.
pub open spec fn lookup(vars: Seq<(Seq<char>, Seq<char>)>, name: Seq<char>) -> Option<Seq<char>>
    decreases vars.len(),
{
    if vars.len() == 0 {
        None
    } else if vars[0].0 == name {
        Some(vars[0].1)
    } else {
        lookup(vars.drop_first(), name)
    }
}

/// `vars` with `name` bound to `value`: the binding replaced in place where
/// it exists, appended where not.
pub open spec fn bind(vars: Seq<(Seq<char>, Seq<char>)>, name: Seq<char>, value: Seq<char>) -> Seq<
    (Seq<char>, Seq<char>),
>
    decreases vars.len(),
{
    if vars.len() == 0 {
        seq![(name, value)]
    } else if vars[0].0 == name {
        vars.update(0, (name, value))
    } else {
        seq![vars[0]] + bind(vars.drop_first(), name, value)
    }
}

/// Law: reading a variable gives back the value it was last set to, and
/// setting one variable leaves every other as it was.
pub proof fn law_get_after_set(vars: Seq<(Seq<char>, Seq<char>)>, name: Seq<char>, value: Seq<char>, other: Seq<char>)
    ensures
        lookup(bind(vars, name, value), name) == Some(value),
        other != name ==> lookup(bind(vars, name, value), other) == lookup(vars, other),
    decreases vars.len(),
{
    if vars.len() > 0 {
        if vars[0].0 == name {
            let u = vars.update(0, (name, value));
            assert(u[0] == (name, value));
            assert(u.drop_first() =~= vars.drop_first());
            if other != name {
                assert(lookup(u, other) == lookup(u.drop_first(), other));
                assert(lookup(vars, other) == lookup(vars.drop_first(), other));
            }
        } else {
            law_get_after_set(vars.drop_first(), name, value, other);
            assert((seq![vars[0]] + bind(vars.drop_first(), name, value)).drop_first() =~= bind(
                vars.drop_first(),
                name,
                value,
            ));
        }
    } else {
        let b = seq![(name, value)];
        assert(b[0] == (name, value));
        assert(b.drop_first() =~= Seq::<(Seq<char>, Seq<char>)>::empty());
        if other != name {
            assert(lookup(b, other) == lookup(b.drop_first(), other));
        }
    }
}

/// The reference to a variable in text: `'$'` and the name.
pub open spec fn reference(name: Seq<char>) -> Seq<char> {
    seq!['$'] + name
}

/// `text` with each variable's references replaced by its value, the
/// variables taken in order.
pub open spec fn expand(vars: Seq<(Seq<char>, Seq<char>)>, text: Seq<char>) -> Seq<char>
    decreases vars.len(),
{
    if vars.len() == 0 {
        text
    } else {
        expand(vars.drop_first(), replace_all(text, reference(vars[0].0), vars[0].1))
    }
}

/// Whether `c` is `l` or its ASCII upper-case form.
pub open spec fn matches_ci(c: char, l: char) -> bool {
    c == l || ('A' <= c <= 'Z' && (c as u32) + 32 == (l as u32))
}

/// Whether `v`, compared without regard to case, spells `word` (`word`
/// holds lower-case ASCII letters and digits only).
pub open spec fn is_word_ci(v: Seq<char>, word: Seq<char>) -> bool {
    v.len() == word.len() && forall|i: int| 0 <= i < v.len() ==> matches_ci(#[trigger] v[i], word[i])
}

/// The truth value of a setting: "yes", "true", "on" or "1", in any case.
pub open spec fn truthy(v: Seq<char>) -> bool {
    is_word_ci(v, "yes"@) || is_word_ci(v, "true"@) || is_word_ci(v, "on"@) || is_word_ci(v, "1"@)
}

pub fn eq_word_ci(v: &Vec<char>, word: &str) -> (b: bool)
    ensures
        b == is_word_ci(v@, word@),
{
    let w = chars_of(word);
    if v.len() != w.len() {
        return false;
    }
    let mut i: usize = 0;
    while i < v.len()
        invariant
            v.len() == w.len(),
            w@ == word@,
            i <= v.len(),
            forall|j: int| 0 <= j < i ==> matches_ci(#[trigger] v@[j], w@[j]),
        decreases v.len() - i,
    {
        let c = v[i];
        let l = w[i];
        if !(c == l || ('A' <= c && c <= 'Z' && (c as u32) + 32 == (l as u32))) {
            return false;
        }
        i += 1;
    }
    true
}

/// The keyboard settings that the compositor's keyboard starts with.
#[derive(Debug, Clone)]
pub struct KeyboardSettings {
    /// Milliseconds before a held key repeats
    pub delay: i32,
    /// Repeats per second
    pub rate: i32,
    pub layout: String,
    pub variant: String,
    pub model: String,
    pub options: Option<String>,
}

/// The first input block meant for keyboards: `type:keyboard` or `*`.
pub open spec fn keyboard_input(ics: Seq<InputConfig<Seq<char>>>) -> Option<InputConfig<Seq<char>>>
    decreases ics.len(),
{
    if ics.len() == 0 {
        None
    } else if ics[0].identifier == "type:keyboard"@ || ics[0].identifier == "*"@ {
        Some(ics[0])
    } else {
        keyboard_input(ics.drop_first())
    }
}

/// A name that an input block may leave unset, empty where it does.
pub open spec fn name_or_empty(o: Option<Seq<char>>) -> Seq<char> {
    match o {
        Some(s) => s,
        None => Seq::empty(),
    }
}

fn name_or_empty_exec(o: &Option<String>) -> (r: String)
    ensures
        r@ == name_or_empty(opt_view(*o)),
{
    match o {
        Some(s) => s.clone(),
        None => String::new(),
    }
}

/// The keyboard settings that configuration `c` asks for: those of its first
/// keyboard input block, with a repeat delay of 200 ms and a rate of 25 per
/// second where it sets none; without such a block, those defaults and no
/// layout, variant, model or options.
pub fn keyboard_settings(c: &Config) -> (k: KeyboardSettings)
    ensures
        k.delay == (match keyboard_input(c@.input_configs) {
            Some(ic) => match ic.repeat_delay {
                Some(d) => d as i32,
                None => 200,
            },
            None => 200,
        }),
        k.rate == (match keyboard_input(c@.input_configs) {
            Some(ic) => match ic.repeat_rate {
                Some(r) => r as i32,
                None => 25,
            },
            None => 25,
        }),
        k.layout@ == (match keyboard_input(c@.input_configs) {
            Some(ic) => name_or_empty(ic.xkb_layout),
            None => Seq::empty(),
        }),
        k.variant@ == (match keyboard_input(c@.input_configs) {
            Some(ic) => name_or_empty(ic.xkb_variant),
            None => Seq::empty(),
        }),
        k.model@ == (match keyboard_input(c@.input_configs) {
            Some(ic) => name_or_empty(ic.xkb_model),
            None => Seq::empty(),
        }),
        opt_view(k.options) == (match keyboard_input(c@.input_configs) {
            Some(ic) => ic.xkb_options,
            None => None,
        }),
{
    let ghost ics = c@.input_configs;
    let mut i: usize = 0;
    assert(ics.skip(0) =~= ics);
    while i < c.input_configs.len()
        invariant
            i <= c.input_configs.len(),
            ics == c@.input_configs,
            ics.len() == c.input_configs.len(),
            keyboard_input(ics) == keyboard_input(ics.skip(i as int)),
        decreases c.input_configs.len() - i,
    {
        let ic = &c.input_configs[i];
        let id = chars_of(ic.identifier.as_str());
        let ghost rest = ics.skip(i as int);
        assert(rest[0] == ics[i as int]);
        assert(ics[i as int] == ic@);
        if crate::text::eq_str(&id, "type:keyboard") || crate::text::eq_str(&id, "*") {
            let delay: i32 = match ic.repeat_delay {
                Some(d) => d as i32,
                None => 200,
            };
            let rate: i32 = match ic.repeat_rate {
                Some(r) => r as i32,
                None => 25,
            };
            let options = match &ic.xkb_options {
                Some(o) => Some(o.clone()),
                None => None,
            };
            return KeyboardSettings {
                delay,
                rate,
                layout: name_or_empty_exec(&ic.xkb_layout),
                variant: name_or_empty_exec(&ic.xkb_variant),
                model: name_or_empty_exec(&ic.xkb_model),
                options,
            };
        }
        assert(rest.drop_first() =~= ics.skip(i + 1));
        i += 1;
    }
    assert(ics.skip(i as int) =~= Seq::<InputConfig<Seq<char>>>::empty());
    KeyboardSettings {
        delay: 200,
        rate: 25,
        layout: String::new(),
        variant: String::new(),
        model: String::new(),
        options: None,
    }
}

pub fn clone_string(s: &String) -> (r: String)
    ensures
        r@ == s@,
{
    s.clone()
}

impl Config {
    /// Binds `name` to `value`, in place where `name` is bound already.
    pub fn set_variable(&mut self, name: String, value: String)
        ensures
            final(self)@ == (ConfigView {
                variables: bind(old(self)@.variables, name@, value@),
                ..old(self)@
            }),
    {
        let ghost vars = old(self)@.variables;
        let n = chars_of(name.as_str());
        let mut i: usize = 0;
        assert(vars.skip(0) =~= vars);
        while i < self.variables.len()
            invariant
                i <= self.variables.len(),
                self.variables@ == old(self).variables@,
                *self == *old(self),
                vars == old(self)@.variables,
                vars.len() == self.variables.len(),
                n@ == name@,
                bind(vars, name@, value@) == vars.take(i as int) + bind(vars.skip(i as int), name@, value@),
            decreases self.variables.len() - i,
        {
            let k = chars_of(self.variables[i].0.as_str());
            let ghost rest = vars.skip(i as int);
            assert(rest.len() > 0);
            assert(rest[0] == vars[i as int]);
            assert(vars[i as int] == (self.variables@[i as int].0@, self.variables@[i as int].1@));
            if eq_chars(&k, &n) {
                let ghost before = self.variables@;
                self.variables.set(i, (name, value));
                proof {
                    assert(bind(rest, name@, value@) == rest.update(0, (name@, value@)));
                    assert(variables_view(self.variables@) =~= vars.take(i as int) + rest.update(
                        0,
                        (name@, value@),
                    ));
                }
                assert(self@ =~= (ConfigView {
                    variables: bind(old(self)@.variables, name@, value@),
                    ..old(self)@
                }));
                return;
            }
            assert(rest.drop_first() =~= vars.skip(i + 1));
            assert(bind(rest, name@, value@) == seq![rest[0]] + bind(rest.drop_first(), name@, value@));
            assert(vars.take(i + 1) =~= vars.take(i as int) + seq![rest[0]]);
            assert(vars.take(i as int) + (seq![rest[0]] + bind(vars.skip(i + 1), name@, value@))
                =~= (vars.take(i as int) + seq![rest[0]]) + bind(vars.skip(i + 1), name@, value@));
            i += 1;
        }
        assert(vars.skip(i as int) =~= Seq::<(Seq<char>, Seq<char>)>::empty());
        self.variables.push((name, value));
        assert(variables_view(self.variables@) =~= vars.take(i as int) + seq![(name@, value@)]);
        assert(self@ =~= (ConfigView {
            variables: bind(old(self)@.variables, name@, value@),
            ..old(self)@
        }));
    }

    /// Get a variable value
    pub fn get_variable(&self, name: &str) -> (r: Option<String>)
        ensures
            opt_view(r) == lookup(self@.variables, name@),
    {
        let n = chars_of(name);
        self.lookup_chars(&n)
    }

    pub fn lookup_chars(&self, name: &Vec<char>) -> (r: Option<String>)
        ensures
            opt_view(r) == lookup(self@.variables, name@),
    {
        let mut i: usize = 0;
        let ghost vars = self@.variables;
        assert(vars.skip(0) =~= vars);
        while i < self.variables.len()
            invariant
                i <= self.variables.len(),
                vars == self@.variables,
                vars.len() == self.variables.len(),
                lookup(vars, name@) == lookup(vars.skip(i as int), name@),
            decreases self.variables.len() - i,
        {
            let k = chars_of(self.variables[i].0.as_str());
            assert(vars.skip(i as int)[0] == (self.variables@[i as int].0@, self.variables@[
                i as int
            ].1@));
            if eq_chars(&k, name) {
                return Some(clone_string(&self.variables[i].1));
            }
            assert(vars.skip(i as int).drop_first() =~= vars.skip(i + 1));
            i += 1;
        }
        None
    }

    /// Get a boolean variable value (compatible with i3/sway: yes/no, true/false, on/off, 1/0)
    pub fn get_bool(&self, name: &str) -> (r: Option<bool>)
        ensures
            r == (match lookup(self@.variables, name@) {
                Some(v) => Some(truthy(v)),
                None => None,
            }),
    {
        match self.get_variable(name) {
            Some(v) => {
                let c = chars_of(v.as_str());
                let t = eq_word_ci(&c, "yes") || eq_word_ci(&c, "true") || eq_word_ci(&c, "on")
                    || eq_word_ci(&c, "1");
                Some(t)
            },
            None => None,
        }
    }

    /// Check if focus follows mouse is enabled (default: true)
    pub fn focus_follows_mouse(&self) -> (b: bool)
        ensures
            b == (match lookup(self@.variables, "focus_follows_mouse"@) {
                Some(v) => truthy(v),
                None => true,
            }),
    {
        match self.get_bool("focus_follows_mouse") {
            Some(b) => b,
            None => true,
        }
    }

    /// Expand variables in a string
    pub fn expand_variables(&self, text: &str) -> (r: String)
        ensures
            r@ == expand(self@.variables, text@),
    {
        let t = chars_of(text);
        let e = self.expand_chars(&t);
        string_of(&e)
    }

    pub fn expand_chars(&self, text: &Vec<char>) -> (r: Vec<char>)
        ensures
            r@ == expand(self@.variables, text@),
    {
        let ghost vars = self@.variables;
        let mut result: Vec<char> = slice(text, 0, text.len());
        assert(result@ =~= text@);
        let mut i: usize = 0;
        assert(vars.skip(0) =~= vars);
        while i < self.variables.len()
            invariant
                i <= self.variables.len(),
                vars == self@.variables,
                vars.len() == self.variables.len(),
                expand(vars, text@) == expand(vars.skip(i as int), result@),
            decreases self.variables.len() - i,
        {
            let mut pat: Vec<char> = Vec::new();
            pat.push('$');
            let name = chars_of(self.variables[i].0.as_str());
            let mut j: usize = 0;
            while j < name.len()
                invariant
                    j <= name.len(),
                    pat@ == seq!['$'] + name@.take(j as int),
                decreases name.len() - j,
            {
                pat.push(name[j]);
                j += 1;
                assert(pat@ =~= seq!['$'] + name@.take(j as int));
            }
            assert(name@.take(j as int) =~= name@);
            let value = chars_of(self.variables[i].1.as_str());
            assert(vars.skip(i as int)[0] == (name@, value@));
            assert(vars.skip(i as int).drop_first() =~= vars.skip(i + 1));
            result = replace_chars(&result, &pat, &value);
            i += 1;
        }
        result
    }
}

} // verus!
