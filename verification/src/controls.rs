//! How the small parts of a view look: the colours that buttons, chips and check marks take by
//! their role and state, and the icons of states and files.
//!
//! A colour is named by its role in the theme; what the theme makes of it is not decided here.

use vstd::prelude::*;

use crate::tasks::{TaskKind, TaskState};

verus! {

/// The looks of a button.
#[derive(Clone, Copy, Debug, PartialEq, Eq, Structural)]
pub enum ButtonVariant {
    Primary,
    Secondary,
    /// Neither ground nor border until it is pointed at.
    Borderless,
    Destructive,
}

/// The state of a check box.
#[derive(Clone, Copy, Debug, PartialEq, Eq, Structural)]
pub enum CheckState {
    Unchecked,
    Checked,
    /// Some are checked, some are not.
    Indeterminate,
}

/// The roles of colours in the theme.
#[derive(Clone, Copy, Debug, PartialEq, Eq, Structural)]
pub enum ColorRole {
    Primary,
    PrimaryForeground,
    Destructive,
    DestructiveForeground,
    Accent,
    AccentForeground,
    Surface,
    SurfaceForeground,
    Background,
    Foreground,
    Muted,
    MutedForeground,
    TextTertiary,
    Border,
    Hairline,
    NavHover,
    NavSelected,
    Success,
    Warning,
}

/// A colour of the theme, as it is or changed.
#[derive(Clone, Copy, Debug, PartialEq, Eq, Structural)]
pub enum Tint {
    Plain(ColorRole),
    /// The colour with no opacity at all.
    Transparent(ColorRole),
    /// The colour with an opacity in hundredths.
    Faded(ColorRole, u8),
    /// The colour made darker or lighter, away from its own lightness, by hundredths.
    Shifted(ColorRole, u8),
}

/// The colours of a button.
#[derive(Clone, Copy, Debug, PartialEq, Eq, Structural)]
pub struct ButtonPalette {
    pub background: Tint,
    pub foreground: Tint,
    pub border: Tint,
    pub hover: Tint,
    pub active: Tint,
}

/// The colours of a button that is filled with one colour.
pub open spec fn filled_palette(background: ColorRole, foreground: ColorRole) -> ButtonPalette {
    ButtonPalette {
        background: Tint::Plain(background),
        foreground: Tint::Plain(foreground),
        border: Tint::Plain(background),
        hover: Tint::Shifted(background, 8),
        active: Tint::Shifted(background, 13),
    }
}

pub open spec fn palette_of(variant: ButtonVariant) -> ButtonPalette {
    match variant {
        ButtonVariant::Primary => filled_palette(ColorRole::Primary, ColorRole::PrimaryForeground),
        ButtonVariant::Secondary => ButtonPalette {
            background: Tint::Plain(ColorRole::Surface),
            foreground: Tint::Plain(ColorRole::Foreground),
            border: Tint::Plain(ColorRole::Border),
            hover: Tint::Plain(ColorRole::Muted),
            active: Tint::Shifted(ColorRole::Muted, 4),
        },
        ButtonVariant::Borderless => ButtonPalette {
            background: Tint::Transparent(ColorRole::Background),
            foreground: Tint::Plain(ColorRole::Foreground),
            border: Tint::Transparent(ColorRole::Border),
            hover: Tint::Plain(ColorRole::Muted),
            active: Tint::Shifted(ColorRole::Muted, 4),
        },
        ButtonVariant::Destructive => filled_palette(
            ColorRole::Destructive,
            ColorRole::DestructiveForeground,
        ),
    }
}

impl ButtonPalette {
    fn filled(background: ColorRole, foreground: ColorRole) -> (r: ButtonPalette)
        ensures
            r == filled_palette(background, foreground),
    {
        ButtonPalette {
            background: Tint::Plain(background),
            foreground: Tint::Plain(foreground),
            border: Tint::Plain(background),
            hover: Tint::Shifted(background, 8),
            active: Tint::Shifted(background, 13),
        }
    }

    /// The colours of a variant.
    pub fn for_variant(variant: ButtonVariant) -> (r: ButtonPalette)
        ensures
            r == palette_of(variant),
    {
        match variant {
            ButtonVariant::Primary => ButtonPalette::filled(
                ColorRole::Primary,
                ColorRole::PrimaryForeground,
            ),
            ButtonVariant::Secondary => ButtonPalette {
                background: Tint::Plain(ColorRole::Surface),
                foreground: Tint::Plain(ColorRole::Foreground),
                border: Tint::Plain(ColorRole::Border),
                hover: Tint::Plain(ColorRole::Muted),
                active: Tint::Shifted(ColorRole::Muted, 4),
            },
            ButtonVariant::Borderless => ButtonPalette {
                background: Tint::Transparent(ColorRole::Background),
                foreground: Tint::Plain(ColorRole::Foreground),
                border: Tint::Transparent(ColorRole::Border),
                hover: Tint::Plain(ColorRole::Muted),
                active: Tint::Shifted(ColorRole::Muted, 4),
            },
            ButtonVariant::Destructive => ButtonPalette::filled(
                ColorRole::Destructive,
                ColorRole::DestructiveForeground,
            ),
        }
    }
}

/// A button with its colours and what it answers to.
#[derive(Clone, Copy, Debug, PartialEq, Eq, Structural)]
pub struct ButtonLook {
    pub palette: ButtonPalette,
    /// Whether it takes clicks.
    pub enabled: bool,
    /// Whether a turning mark shows that its action is under way.
    pub spinner: bool,
    /// The opacity while it takes no clicks, in hundredths.
    pub disabled_opacity: u8,
}

/// A button with a text or an icon.
pub fn button(variant: ButtonVariant) -> (r: ButtonLook)
    ensures
        r == (ButtonLook {
            palette: palette_of(variant),
            enabled: true,
            spinner: false,
            disabled_opacity: 50,
        }),
{
    ButtonLook {
        palette: ButtonPalette::for_variant(variant),
        enabled: true,
        spinner: false,
        disabled_opacity: 50,
    }
}

/// A button whose action takes time: while it is under way the button takes no clicks, shows a
/// turning mark and fades less than a button that cannot be used.
pub fn loading_button(variant: ButtonVariant, loading: bool) -> (r: ButtonLook)
    ensures
        r == (ButtonLook {
            palette: palette_of(variant),
            enabled: !loading,
            spinner: loading,
            disabled_opacity: if loading {
                80
            } else {
                50
            },
        }),
{
    let mut look = button(variant);
    if loading {
        look.enabled = false;
        look.spinner = true;
        look.disabled_opacity = 80;
    }
    look
}

/// What a part that can be chosen looks like.
#[derive(Clone, Copy, Debug, PartialEq, Eq, Structural)]
pub struct ChoiceLook {
    pub background: Tint,
    pub foreground: Tint,
    pub border: Option<Tint>,
    pub hover: Tint,
    /// Whether its text stands out.
    pub medium: bool,
}

/// One of several choices that exclude each other.
pub fn choice_chip(selected: bool) -> (r: ChoiceLook)
    ensures
        selected ==> r == (ChoiceLook {
            background: Tint::Plain(ColorRole::Accent),
            foreground: Tint::Plain(ColorRole::AccentForeground),
            border: Some(Tint::Plain(ColorRole::Primary)),
            hover: Tint::Plain(ColorRole::Accent),
            medium: true,
        }),
        !selected ==> r == (ChoiceLook {
            background: Tint::Plain(ColorRole::Surface),
            foreground: Tint::Plain(ColorRole::Foreground),
            border: Some(Tint::Plain(ColorRole::Border)),
            hover: Tint::Plain(ColorRole::Muted),
            medium: false,
        }),
{
    if selected {
        ChoiceLook {
            background: Tint::Plain(ColorRole::Accent),
            foreground: Tint::Plain(ColorRole::AccentForeground),
            border: Some(Tint::Plain(ColorRole::Primary)),
            hover: Tint::Plain(ColorRole::Accent),
            medium: true,
        }
    } else {
        ChoiceLook {
            background: Tint::Plain(ColorRole::Surface),
            foreground: Tint::Plain(ColorRole::Foreground),
            border: Some(Tint::Plain(ColorRole::Border)),
            hover: Tint::Plain(ColorRole::Muted),
            medium: false,
        }
    }
}

/// An entry of a sidebar: neutral where it is chosen, dimmed where it is not.
pub fn sidebar_navigation_button(selected: bool) -> (r: ChoiceLook)
    ensures
        selected ==> r == (ChoiceLook {
            background: Tint::Plain(ColorRole::NavSelected),
            foreground: Tint::Plain(ColorRole::Foreground),
            border: None,
            hover: Tint::Plain(ColorRole::NavSelected),
            medium: true,
        }),
        !selected ==> r == (ChoiceLook {
            background: Tint::Transparent(ColorRole::NavHover),
            foreground: Tint::Plain(ColorRole::MutedForeground),
            border: None,
            hover: Tint::Plain(ColorRole::NavHover),
            medium: false,
        }),
{
    if selected {
        ChoiceLook {
            background: Tint::Plain(ColorRole::NavSelected),
            foreground: Tint::Plain(ColorRole::Foreground),
            border: None,
            hover: Tint::Plain(ColorRole::NavSelected),
            medium: true,
        }
    } else {
        ChoiceLook {
            background: Tint::Transparent(ColorRole::NavHover),
            foreground: Tint::Plain(ColorRole::MutedForeground),
            border: None,
            hover: Tint::Plain(ColorRole::NavHover),
            medium: false,
        }
    }
}

/// A button of the activity bar: it has an icon and no text.
pub fn activity_button(selected: bool) -> (r: ChoiceLook)
    ensures
        r.background == if selected {
            Tint::Plain(ColorRole::NavSelected)
        } else {
            Tint::Transparent(ColorRole::NavHover)
        },
        r.foreground == if selected {
            Tint::Plain(ColorRole::Foreground)
        } else {
            Tint::Plain(ColorRole::MutedForeground)
        },
        r.hover == if selected {
            Tint::Plain(ColorRole::NavSelected)
        } else {
            Tint::Plain(ColorRole::NavHover)
        },
        r.border is None,
        !r.medium,
{
    let look = sidebar_navigation_button(selected);
    ChoiceLook { medium: false, ..look }
}

/// An entry of a navigation list: a borderless button that takes the accent where it is chosen.
pub fn navigation_button(selected: bool) -> (r: ChoiceLook)
    ensures
        r == (ChoiceLook {
            background: if selected {
                Tint::Plain(ColorRole::Accent)
            } else {
                palette_of(ButtonVariant::Borderless).background
            },
            foreground: if selected {
                Tint::Plain(ColorRole::AccentForeground)
            } else {
                palette_of(ButtonVariant::Borderless).foreground
            },
            border: Some(palette_of(ButtonVariant::Borderless).border),
            hover: palette_of(ButtonVariant::Borderless).hover,
            medium: false,
        }),
{
    let bare = ButtonPalette::for_variant(ButtonVariant::Borderless);
    ChoiceLook {
        background: if selected {
            Tint::Plain(ColorRole::Accent)
        } else {
            bare.background
        },
        foreground: if selected {
            Tint::Plain(ColorRole::AccentForeground)
        } else {
            bare.foreground
        },
        border: Some(bare.border),
        hover: bare.hover,
        medium: false,
    }
}

/// A small button of the tool bar or the status bar.
#[derive(Clone, Copy, Debug, PartialEq, Eq, Structural)]
pub struct ToolbarLook {
    pub foreground: ColorRole,
    pub hover_foreground: ColorRole,
    pub enabled: bool,
    /// In hundredths.
    pub opacity: u8,
}

/// A small button of the tool bar or the status bar; one that destroys something has a red icon
/// and no red ground.
pub fn toolbar_action_button(destructive: bool, disabled: bool) -> (r: ToolbarLook)
    ensures
        r == (ToolbarLook {
            foreground: if destructive {
                ColorRole::Destructive
            } else {
                ColorRole::MutedForeground
            },
            hover_foreground: if destructive {
                ColorRole::Destructive
            } else {
                ColorRole::Foreground
            },
            enabled: !disabled,
            opacity: if disabled {
                35
            } else {
                100
            },
        }),
{
    ToolbarLook {
        foreground: if destructive {
            ColorRole::Destructive
        } else {
            ColorRole::MutedForeground
        },
        hover_foreground: if destructive {
            ColorRole::Destructive
        } else {
            ColorRole::Foreground
        },
        enabled: !disabled,
        opacity: if disabled {
            35
        } else {
            100
        },
    }
}

/// The icons that the views show.
#[derive(Clone, Copy, Debug, PartialEq, Eq, Structural)]
pub enum FluxIcon {
    AppWindow,
    ArrowDown,
    ArrowUp,
    CheckboxCheck,
    CheckboxMinus,
    ChevronDown,
    ChevronRight,
    CircleAlert,
    Check,
    Copy,
    Disc3,
    ExternalLink,
    File,
    FileArchive,
    FileImage,
    FileMusic,
    FilePlay,
    FileText,
    FolderOpen,
    Pause,
    Pen,
    Play,
    RotateCw,
    Smartphone,
    Trash2,
    Zap,
}

/// A check mark.
#[derive(Clone, Copy, Debug, PartialEq, Eq, Structural)]
pub struct CheckMarkLook {
    pub glyph: Option<FluxIcon>,
    pub border: Tint,
    pub background: Tint,
}

/// A check mark: an empty frame, or a filled one with a tick or a dash.
pub fn check_mark(state: CheckState) -> (r: CheckMarkLook)
    ensures
        r.glyph == match state {
            CheckState::Unchecked => None,
            CheckState::Checked => Some(FluxIcon::CheckboxCheck),
            CheckState::Indeterminate => Some(FluxIcon::CheckboxMinus),
        },
        r.border == if state == CheckState::Unchecked {
            Tint::Faded(ColorRole::MutedForeground, 55)
        } else {
            Tint::Plain(ColorRole::Primary)
        },
        r.background == if state == CheckState::Unchecked {
            Tint::Plain(ColorRole::Surface)
        } else {
            Tint::Plain(ColorRole::Primary)
        },
{
    let glyph = match state {
        CheckState::Unchecked => None,
        CheckState::Checked => Some(FluxIcon::CheckboxCheck),
        CheckState::Indeterminate => Some(FluxIcon::CheckboxMinus),
    };
    match glyph {
        None => CheckMarkLook {
            glyph,
            border: Tint::Faded(ColorRole::MutedForeground, 55),
            background: Tint::Plain(ColorRole::Surface),
        },
        Some(_) => CheckMarkLook {
            glyph,
            border: Tint::Plain(ColorRole::Primary),
            background: Tint::Plain(ColorRole::Primary),
        },
    }
}

pub open spec fn bar_color(state: TaskState) -> Tint {
    match state {
        TaskState::Downloading => Tint::Plain(ColorRole::Primary),
        TaskState::Paused => Tint::Faded(ColorRole::MutedForeground, 40),
        TaskState::Failed => Tint::Plain(ColorRole::Destructive),
        TaskState::Pending => Tint::Plain(ColorRole::TextTertiary),
        TaskState::Completed => Tint::Plain(ColorRole::TextTertiary),
    }
}

/// The colour of a task's progress bar.
pub fn progress_bar_color(state: TaskState) -> (r: Tint)
    ensures
        r == bar_color(state),
{
    match state {
        TaskState::Downloading => Tint::Plain(ColorRole::Primary),
        TaskState::Paused => Tint::Faded(ColorRole::MutedForeground, 40),
        TaskState::Failed => Tint::Plain(ColorRole::Destructive),
        TaskState::Pending | TaskState::Completed => Tint::Plain(ColorRole::TextTertiary),
    }
}

/// The colour of the track under a progress bar.
pub fn progress_track_color() -> (r: Tint)
    ensures
        r == Tint::Faded(ColorRole::MutedForeground, 16),
{
    Tint::Faded(ColorRole::MutedForeground, 16)
}

pub open spec fn state_color(state: TaskState) -> ColorRole {
    match state {
        TaskState::Downloading => ColorRole::Primary,
        TaskState::Failed => ColorRole::Destructive,
        TaskState::Paused => ColorRole::MutedForeground,
        TaskState::Pending => ColorRole::TextTertiary,
        TaskState::Completed => ColorRole::TextTertiary,
    }
}

/// The colour in which a task's state is written.
pub fn status_color(state: TaskState) -> (r: ColorRole)
    ensures
        r == state_color(state),
{
    match state {
        TaskState::Downloading => ColorRole::Primary,
        TaskState::Failed => ColorRole::Destructive,
        TaskState::Paused => ColorRole::MutedForeground,
        TaskState::Pending | TaskState::Completed => ColorRole::TextTertiary,
    }
}

pub open spec fn icon_of_kind(kind: TaskKind) -> FluxIcon {
    match kind {
        TaskKind::Video => FluxIcon::FilePlay,
        TaskKind::Audio => FluxIcon::FileMusic,
        TaskKind::Document => FluxIcon::FileText,
        TaskKind::Image => FluxIcon::FileImage,
        TaskKind::Archive => FluxIcon::FileArchive,
        TaskKind::DiskImage => FluxIcon::Disc3,
        TaskKind::Application => FluxIcon::AppWindow,
        TaskKind::Mobile => FluxIcon::Smartphone,
        TaskKind::Other => FluxIcon::File,
    }
}

/// The icon of a sort of file.
pub fn kind_icon(kind: TaskKind) -> (r: FluxIcon)
    ensures
        r == icon_of_kind(kind),
{
    match kind {
        TaskKind::Video => FluxIcon::FilePlay,
        TaskKind::Audio => FluxIcon::FileMusic,
        TaskKind::Document => FluxIcon::FileText,
        TaskKind::Image => FluxIcon::FileImage,
        TaskKind::Archive => FluxIcon::FileArchive,
        TaskKind::DiskImage => FluxIcon::Disc3,
        TaskKind::Application => FluxIcon::AppWindow,
        TaskKind::Mobile => FluxIcon::Smartphone,
        TaskKind::Other => FluxIcon::File,
    }
}

/// A task's state is drawn in one colour for the bar and the text: what failed in the colour of
/// danger, what runs in the leading one; what waits and what is done are drawn alike.
pub proof fn law_states_are_drawn_apart(state: TaskState, text: ColorRole, bar: Tint)
    requires
        call_ensures(status_color, (state,), text),
        call_ensures(progress_bar_color, (state,), bar),
    ensures
        text == ColorRole::Destructive <==> state == TaskState::Failed,
        text == ColorRole::Primary <==> state == TaskState::Downloading,
        text == ColorRole::MutedForeground <==> state == TaskState::Paused,
        text == ColorRole::TextTertiary <==> state == TaskState::Pending || state
            == TaskState::Completed,
        state != TaskState::Paused ==> bar == Tint::Plain(text),
        state == TaskState::Paused ==> bar == Tint::Faded(text, 40),
{
}

/// Every sort of file has an icon of its own, and it is the one for that sort.
pub proof fn law_sorts_of_file_have_their_icons(kind: TaskKind, icon: FluxIcon)
    requires
        call_ensures(kind_icon, (kind,), icon),
    ensures
        icon == FluxIcon::FilePlay <==> kind == TaskKind::Video,
        icon == FluxIcon::FileMusic <==> kind == TaskKind::Audio,
        icon == FluxIcon::FileText <==> kind == TaskKind::Document,
        icon == FluxIcon::FileImage <==> kind == TaskKind::Image,
        icon == FluxIcon::FileArchive <==> kind == TaskKind::Archive,
        icon == FluxIcon::Disc3 <==> kind == TaskKind::DiskImage,
        icon == FluxIcon::AppWindow <==> kind == TaskKind::Application,
        icon == FluxIcon::Smartphone <==> kind == TaskKind::Mobile,
        icon == FluxIcon::File <==> kind == TaskKind::Other,
{
}

/// A button that is loading cannot be pressed and shows that it is; else it is an ordinary button
/// of its sort.
pub proof fn law_loading_button_cannot_be_pressed(
    variant: ButtonVariant,
    plain: ButtonLook,
    idle: ButtonLook,
    busy: ButtonLook,
)
    requires
        call_ensures(button, (variant,), plain),
        call_ensures(loading_button, (variant, false), idle),
        call_ensures(loading_button, (variant, true), busy),
    ensures
        idle == plain,
        plain.enabled && !plain.spinner,
        !busy.enabled && busy.spinner,
        busy.palette == plain.palette,
{
}

/// A box shows a tick where it is checked, a bar where it is partly so, and nothing else.
pub proof fn law_box_shows_its_state(state: CheckState, look: CheckMarkLook)
    requires
        call_ensures(check_mark, (state,), look),
    ensures
        look.glyph == Some(FluxIcon::CheckboxCheck) <==> state == CheckState::Checked,
        look.glyph == Some(FluxIcon::CheckboxMinus) <==> state == CheckState::Indeterminate,
        look.glyph is None <==> state == CheckState::Unchecked,
{
}

/// A button of the toolbar that is off cannot be pressed and is dimmed; one that destroys is drawn
/// in the colour of danger.
pub proof fn law_toolbar_button_shows_what_it_is(destructive: bool, disabled: bool, look: ToolbarLook)
    requires
        call_ensures(toolbar_action_button, (destructive, disabled), look),
    ensures
        look.enabled <==> !disabled,
        look.opacity == 100 <==> !disabled,
        look.foreground == ColorRole::Destructive <==> destructive,
        look.hover_foreground == ColorRole::Destructive <==> destructive,
{
}

/// What is selected looks other than what is not, wherever one chooses.
pub proof fn law_selection_is_visible(
    chip: ChoiceLook,
    chosen: ChoiceLook,
    nav: ChoiceLook,
    here: ChoiceLook,
    tool: ChoiceLook,
    active: ChoiceLook,
)
    requires
        call_ensures(choice_chip, (false,), chip),
        call_ensures(choice_chip, (true,), chosen),
        call_ensures(sidebar_navigation_button, (false,), nav),
        call_ensures(sidebar_navigation_button, (true,), here),
        call_ensures(activity_button, (false,), tool),
        call_ensures(activity_button, (true,), active),
    ensures
        chip.background != chosen.background,
        chosen.border == Some(Tint::Plain(ColorRole::Primary)),
        nav.background != here.background,
        here.medium && !nav.medium,
        here.hover == here.background,
        tool.background != active.background,
        active.background == here.background && tool.background == nav.background,
        active.foreground == here.foreground && tool.foreground == nav.foreground,
{
}

/// A button is drawn as its sort says: the leading one and the one that destroys are filled with their
/// colours, and a page that one is on is drawn as chosen.
pub proof fn law_buttons_are_drawn_as_their_sort(
    primary: ButtonPalette,
    danger: ButtonPalette,
    here: ChoiceLook,
    elsewhere: ChoiceLook,
    plain: ButtonPalette,
)
    requires
        call_ensures(ButtonPalette::for_variant, (ButtonVariant::Primary,), primary),
        call_ensures(ButtonPalette::for_variant, (ButtonVariant::Destructive,), danger),
        call_ensures(ButtonPalette::for_variant, (ButtonVariant::Borderless,), plain),
        call_ensures(navigation_button, (true,), here),
        call_ensures(navigation_button, (false,), elsewhere),
    ensures
        primary.background == Tint::Plain(ColorRole::Primary),
        primary.foreground == Tint::Plain(ColorRole::PrimaryForeground),
        danger.background == Tint::Plain(ColorRole::Destructive),
        danger.foreground == Tint::Plain(ColorRole::DestructiveForeground),
        here.background == Tint::Plain(ColorRole::Accent),
        here.foreground == Tint::Plain(ColorRole::AccentForeground),
        elsewhere.background == plain.background && elsewhere.foreground == plain.foreground,
{
}

} // verus!
