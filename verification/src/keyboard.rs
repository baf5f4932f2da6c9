//! Keyboard specific types.

use vstd::prelude::*;
use crate::button_map::Button;

verus! {

/// The physical key that was pressed, whatever the keyboard layout.
#[derive(Clone, Copy, PartialEq, Eq, Hash, Debug)]
pub enum KeyCode {
    Backquote,
    Backslash,
    BracketLeft,
    BracketRight,
    Comma,
    Digit0,
    Digit1,
    Digit2,
    Digit3,
    Digit4,
    Digit5,
    Digit6,
    Digit7,
    Digit8,
    Digit9,
    Equal,
    IntlBackslash,
    IntlRo,
    IntlYen,
    KeyA,
    KeyB,
    KeyC,
    KeyD,
    KeyE,
    KeyF,
    KeyG,
    KeyH,
    KeyI,
    KeyJ,
    KeyK,
    KeyL,
    KeyM,
    KeyN,
    KeyO,
    KeyP,
    KeyQ,
    KeyR,
    KeyS,
    KeyT,
    KeyU,
    KeyV,
    KeyW,
    KeyX,
    KeyY,
    KeyZ,
    Minus,
    Period,
    Quote,
    Semicolon,
    Slash,
    AltLeft,
    AltRight,
    Backspace,
    CapsLock,
    ContextMenu,
    ControlLeft,
    ControlRight,
    Enter,
    SuperLeft,
    SuperRight,
    ShiftLeft,
    ShiftRight,
    Space,
    Tab,
    Convert,
    KanaMode,
    Lang1,
    Lang2,
    Lang3,
    Lang4,
    Lang5,
    NonConvert,
    Delete,
    End,
    Help,
    Home,
    Insert,
    PageDown,
    PageUp,
    ArrowDown,
    ArrowLeft,
    ArrowRight,
    ArrowUp,
    NumLock,
    Numpad0,
    Numpad1,
    Numpad2,
    Numpad3,
    Numpad4,
    Numpad5,
    Numpad6,
    Numpad7,
    Numpad8,
    Numpad9,
    NumpadAdd,
    NumpadBackspace,
    NumpadClear,
    NumpadClearEntry,
    NumpadComma,
    NumpadDecimal,
    NumpadDivide,
    NumpadEnter,
    NumpadEqual,
    NumpadHash,
    NumpadMemoryAdd,
    NumpadMemoryClear,
    NumpadMemoryRecall,
    NumpadMemoryStore,
    NumpadMemorySubtract,
    NumpadMultiply,
    NumpadParenLeft,
    NumpadParenRight,
    NumpadStar,
    NumpadSubtract,
    Escape,
    Fn,
    FnLock,
    PrintScreen,
    ScrollLock,
    Pause,
    BrowserBack,
    BrowserFavorites,
    BrowserForward,
    BrowserHome,
    BrowserRefresh,
    BrowserSearch,
    BrowserStop,
    Eject,
    LaunchApp1,
    LaunchApp2,
    LaunchMail,
    MediaPlayPause,
    MediaSelect,
    MediaStop,
    MediaTrackNext,
    MediaTrackPrevious,
    Power,
    Sleep,
    AudioVolumeDown,
    AudioVolumeMute,
    AudioVolumeUp,
    WakeUp,
    Meta,
    Hyper,
    Turbo,
    Abort,
    Resume,
    Suspend,
    Again,
    Copy,
    Cut,
    Find,
    Open,
    Paste,
    Props,
    Select,
    Undo,
    Hiragana,
    Katakana,
    F1,
    F2,
    F3,
    F4,
    F5,
    F6,
    F7,
    F8,
    F9,
    F10,
    F11,
    F12,
    F13,
    F14,
    F15,
    F16,
    F17,
    F18,
    F19,
    F20,
    F21,
    F22,
    F23,
    F24,
    F25,
    F26,
    F27,
    F28,
    F29,
    F30,
    F31,
    F32,
    F33,
    F34,
    F35,
    /// A key that has no name here.
    Unidentified,
}

impl Button for KeyCode {
    open spec fn spec_code(&self) -> u64 {
        match self {
            KeyCode::Backquote => 1,
            KeyCode::Backslash => 2,
            KeyCode::BracketLeft => 3,
            KeyCode::BracketRight => 4,
            KeyCode::Comma => 5,
            KeyCode::Digit0 => 6,
            KeyCode::Digit1 => 7,
            KeyCode::Digit2 => 8,
            KeyCode::Digit3 => 9,
            KeyCode::Digit4 => 10,
            KeyCode::Digit5 => 11,
            KeyCode::Digit6 => 12,
            KeyCode::Digit7 => 13,
            KeyCode::Digit8 => 14,
            KeyCode::Digit9 => 15,
            KeyCode::Equal => 16,
            KeyCode::IntlBackslash => 17,
            KeyCode::IntlRo => 18,
            KeyCode::IntlYen => 19,
            KeyCode::KeyA => 20,
            KeyCode::KeyB => 21,
            KeyCode::KeyC => 22,
            KeyCode::KeyD => 23,
            KeyCode::KeyE => 24,
            KeyCode::KeyF => 25,
            KeyCode::KeyG => 26,
            KeyCode::KeyH => 27,
            KeyCode::KeyI => 28,
            KeyCode::KeyJ => 29,
            KeyCode::KeyK => 30,
            KeyCode::KeyL => 31,
            KeyCode::KeyM => 32,
            KeyCode::KeyN => 33,
            KeyCode::KeyO => 34,
            KeyCode::KeyP => 35,
            KeyCode::KeyQ => 36,
            KeyCode::KeyR => 37,
            KeyCode::KeyS => 38,
            KeyCode::KeyT => 39,
            KeyCode::KeyU => 40,
            KeyCode::KeyV => 41,
            KeyCode::KeyW => 42,
            KeyCode::KeyX => 43,
            KeyCode::KeyY => 44,
            KeyCode::KeyZ => 45,
            KeyCode::Minus => 46,
            KeyCode::Period => 47,
            KeyCode::Quote => 48,
            KeyCode::Semicolon => 49,
            KeyCode::Slash => 50,
            KeyCode::AltLeft => 51,
            KeyCode::AltRight => 52,
            KeyCode::Backspace => 53,
            KeyCode::CapsLock => 54,
            KeyCode::ContextMenu => 55,
            KeyCode::ControlLeft => 56,
            KeyCode::ControlRight => 57,
            KeyCode::Enter => 58,
            KeyCode::SuperLeft => 59,
            KeyCode::SuperRight => 60,
            KeyCode::ShiftLeft => 61,
            KeyCode::ShiftRight => 62,
            KeyCode::Space => 63,
            KeyCode::Tab => 64,
            KeyCode::Convert => 65,
            KeyCode::KanaMode => 66,
            KeyCode::Lang1 => 67,
            KeyCode::Lang2 => 68,
            KeyCode::Lang3 => 69,
            KeyCode::Lang4 => 70,
            KeyCode::Lang5 => 71,
            KeyCode::NonConvert => 72,
            KeyCode::Delete => 73,
            KeyCode::End => 74,
            KeyCode::Help => 75,
            KeyCode::Home => 76,
            KeyCode::Insert => 77,
            KeyCode::PageDown => 78,
            KeyCode::PageUp => 79,
            KeyCode::ArrowDown => 80,
            KeyCode::ArrowLeft => 81,
            KeyCode::ArrowRight => 82,
            KeyCode::ArrowUp => 83,
            KeyCode::NumLock => 84,
            KeyCode::Numpad0 => 85,
            KeyCode::Numpad1 => 86,
            KeyCode::Numpad2 => 87,
            KeyCode::Numpad3 => 88,
            KeyCode::Numpad4 => 89,
            KeyCode::Numpad5 => 90,
            KeyCode::Numpad6 => 91,
            KeyCode::Numpad7 => 92,
            KeyCode::Numpad8 => 93,
            KeyCode::Numpad9 => 94,
            KeyCode::NumpadAdd => 95,
            KeyCode::NumpadBackspace => 96,
            KeyCode::NumpadClear => 97,
            KeyCode::NumpadClearEntry => 98,
            KeyCode::NumpadComma => 99,
            KeyCode::NumpadDecimal => 100,
            KeyCode::NumpadDivide => 101,
            KeyCode::NumpadEnter => 102,
            KeyCode::NumpadEqual => 103,
            KeyCode::NumpadHash => 104,
            KeyCode::NumpadMemoryAdd => 105,
            KeyCode::NumpadMemoryClear => 106,
            KeyCode::NumpadMemoryRecall => 107,
            KeyCode::NumpadMemoryStore => 108,
            KeyCode::NumpadMemorySubtract => 109,
            KeyCode::NumpadMultiply => 110,
            KeyCode::NumpadParenLeft => 111,
            KeyCode::NumpadParenRight => 112,
            KeyCode::NumpadStar => 113,
            KeyCode::NumpadSubtract => 114,
            KeyCode::Escape => 115,
            KeyCode::Fn => 116,
            KeyCode::FnLock => 117,
            KeyCode::PrintScreen => 118,
            KeyCode::ScrollLock => 119,
            KeyCode::Pause => 120,
            KeyCode::BrowserBack => 121,
            KeyCode::BrowserFavorites => 122,
            KeyCode::BrowserForward => 123,
            KeyCode::BrowserHome => 124,
            KeyCode::BrowserRefresh => 125,
            KeyCode::BrowserSearch => 126,
            KeyCode::BrowserStop => 127,
            KeyCode::Eject => 128,
            KeyCode::LaunchApp1 => 129,
            KeyCode::LaunchApp2 => 130,
            KeyCode::LaunchMail => 131,
            KeyCode::MediaPlayPause => 132,
            KeyCode::MediaSelect => 133,
            KeyCode::MediaStop => 134,
            KeyCode::MediaTrackNext => 135,
            KeyCode::MediaTrackPrevious => 136,
            KeyCode::Power => 137,
            KeyCode::Sleep => 138,
            KeyCode::AudioVolumeDown => 139,
            KeyCode::AudioVolumeMute => 140,
            KeyCode::AudioVolumeUp => 141,
            KeyCode::WakeUp => 142,
            KeyCode::Meta => 143,
            KeyCode::Hyper => 144,
            KeyCode::Turbo => 145,
            KeyCode::Abort => 146,
            KeyCode::Resume => 147,
            KeyCode::Suspend => 148,
            KeyCode::Again => 149,
            KeyCode::Copy => 150,
            KeyCode::Cut => 151,
            KeyCode::Find => 152,
            KeyCode::Open => 153,
            KeyCode::Paste => 154,
            KeyCode::Props => 155,
            KeyCode::Select => 156,
            KeyCode::Undo => 157,
            KeyCode::Hiragana => 158,
            KeyCode::Katakana => 159,
            KeyCode::F1 => 160,
            KeyCode::F2 => 161,
            KeyCode::F3 => 162,
            KeyCode::F4 => 163,
            KeyCode::F5 => 164,
            KeyCode::F6 => 165,
            KeyCode::F7 => 166,
            KeyCode::F8 => 167,
            KeyCode::F9 => 168,
            KeyCode::F10 => 169,
            KeyCode::F11 => 170,
            KeyCode::F12 => 171,
            KeyCode::F13 => 172,
            KeyCode::F14 => 173,
            KeyCode::F15 => 174,
            KeyCode::F16 => 175,
            KeyCode::F17 => 176,
            KeyCode::F18 => 177,
            KeyCode::F19 => 178,
            KeyCode::F20 => 179,
            KeyCode::F21 => 180,
            KeyCode::F22 => 181,
            KeyCode::F23 => 182,
            KeyCode::F24 => 183,
            KeyCode::F25 => 184,
            KeyCode::F26 => 185,
            KeyCode::F27 => 186,
            KeyCode::F28 => 187,
            KeyCode::F29 => 188,
            KeyCode::F30 => 189,
            KeyCode::F31 => 190,
            KeyCode::F32 => 191,
            KeyCode::F33 => 192,
            KeyCode::F34 => 193,
            KeyCode::F35 => 194,
            KeyCode::Unidentified => 0,
        }
    }

    fn code(&self) -> (code: u64) {
        match self {
            KeyCode::Backquote => 1,
            KeyCode::Backslash => 2,
            KeyCode::BracketLeft => 3,
            KeyCode::BracketRight => 4,
            KeyCode::Comma => 5,
            KeyCode::Digit0 => 6,
            KeyCode::Digit1 => 7,
            KeyCode::Digit2 => 8,
            KeyCode::Digit3 => 9,
            KeyCode::Digit4 => 10,
            KeyCode::Digit5 => 11,
            KeyCode::Digit6 => 12,
            KeyCode::Digit7 => 13,
            KeyCode::Digit8 => 14,
            KeyCode::Digit9 => 15,
            KeyCode::Equal => 16,
            KeyCode::IntlBackslash => 17,
            KeyCode::IntlRo => 18,
            KeyCode::IntlYen => 19,
            KeyCode::KeyA => 20,
            KeyCode::KeyB => 21,
            KeyCode::KeyC => 22,
            KeyCode::KeyD => 23,
            KeyCode::KeyE => 24,
            KeyCode::KeyF => 25,
            KeyCode::KeyG => 26,
            KeyCode::KeyH => 27,
            KeyCode::KeyI => 28,
            KeyCode::KeyJ => 29,
            KeyCode::KeyK => 30,
            KeyCode::KeyL => 31,
            KeyCode::KeyM => 32,
            KeyCode::KeyN => 33,
            KeyCode::KeyO => 34,
            KeyCode::KeyP => 35,
            KeyCode::KeyQ => 36,
            KeyCode::KeyR => 37,
            KeyCode::KeyS => 38,
            KeyCode::KeyT => 39,
            KeyCode::KeyU => 40,
            KeyCode::KeyV => 41,
            KeyCode::KeyW => 42,
            KeyCode::KeyX => 43,
            KeyCode::KeyY => 44,
            KeyCode::KeyZ => 45,
            KeyCode::Minus => 46,
            KeyCode::Period => 47,
            KeyCode::Quote => 48,
            KeyCode::Semicolon => 49,
            KeyCode::Slash => 50,
            KeyCode::AltLeft => 51,
            KeyCode::AltRight => 52,
            KeyCode::Backspace => 53,
            KeyCode::CapsLock => 54,
            KeyCode::ContextMenu => 55,
            KeyCode::ControlLeft => 56,
            KeyCode::ControlRight => 57,
            KeyCode::Enter => 58,
            KeyCode::SuperLeft => 59,
            KeyCode::SuperRight => 60,
            KeyCode::ShiftLeft => 61,
            KeyCode::ShiftRight => 62,
            KeyCode::Space => 63,
            KeyCode::Tab => 64,
            KeyCode::Convert => 65,
            KeyCode::KanaMode => 66,
            KeyCode::Lang1 => 67,
            KeyCode::Lang2 => 68,
            KeyCode::Lang3 => 69,
            KeyCode::Lang4 => 70,
            KeyCode::Lang5 => 71,
            KeyCode::NonConvert => 72,
            KeyCode::Delete => 73,
            KeyCode::End => 74,
            KeyCode::Help => 75,
            KeyCode::Home => 76,
            KeyCode::Insert => 77,
            KeyCode::PageDown => 78,
            KeyCode::PageUp => 79,
            KeyCode::ArrowDown => 80,
            KeyCode::ArrowLeft => 81,
            KeyCode::ArrowRight => 82,
            KeyCode::ArrowUp => 83,
            KeyCode::NumLock => 84,
            KeyCode::Numpad0 => 85,
            KeyCode::Numpad1 => 86,
            KeyCode::Numpad2 => 87,
            KeyCode::Numpad3 => 88,
            KeyCode::Numpad4 => 89,
            KeyCode::Numpad5 => 90,
            KeyCode::Numpad6 => 91,
            KeyCode::Numpad7 => 92,
            KeyCode::Numpad8 => 93,
            KeyCode::Numpad9 => 94,
            KeyCode::NumpadAdd => 95,
            KeyCode::NumpadBackspace => 96,
            KeyCode::NumpadClear => 97,
            KeyCode::NumpadClearEntry => 98,
            KeyCode::NumpadComma => 99,
            KeyCode::NumpadDecimal => 100,
            KeyCode::NumpadDivide => 101,
            KeyCode::NumpadEnter => 102,
            KeyCode::NumpadEqual => 103,
            KeyCode::NumpadHash => 104,
            KeyCode::NumpadMemoryAdd => 105,
            KeyCode::NumpadMemoryClear => 106,
            KeyCode::NumpadMemoryRecall => 107,
            KeyCode::NumpadMemoryStore => 108,
            KeyCode::NumpadMemorySubtract => 109,
            KeyCode::NumpadMultiply => 110,
            KeyCode::NumpadParenLeft => 111,
            KeyCode::NumpadParenRight => 112,
            KeyCode::NumpadStar => 113,
            KeyCode::NumpadSubtract => 114,
            KeyCode::Escape => 115,
            KeyCode::Fn => 116,
            KeyCode::FnLock => 117,
            KeyCode::PrintScreen => 118,
            KeyCode::ScrollLock => 119,
            KeyCode::Pause => 120,
            KeyCode::BrowserBack => 121,
            KeyCode::BrowserFavorites => 122,
            KeyCode::BrowserForward => 123,
            KeyCode::BrowserHome => 124,
            KeyCode::BrowserRefresh => 125,
            KeyCode::BrowserSearch => 126,
            KeyCode::BrowserStop => 127,
            KeyCode::Eject => 128,
            KeyCode::LaunchApp1 => 129,
            KeyCode::LaunchApp2 => 130,
            KeyCode::LaunchMail => 131,
            KeyCode::MediaPlayPause => 132,
            KeyCode::MediaSelect => 133,
            KeyCode::MediaStop => 134,
            KeyCode::MediaTrackNext => 135,
            KeyCode::MediaTrackPrevious => 136,
            KeyCode::Power => 137,
            KeyCode::Sleep => 138,
            KeyCode::AudioVolumeDown => 139,
            KeyCode::AudioVolumeMute => 140,
            KeyCode::AudioVolumeUp => 141,
            KeyCode::WakeUp => 142,
            KeyCode::Meta => 143,
            KeyCode::Hyper => 144,
            KeyCode::Turbo => 145,
            KeyCode::Abort => 146,
            KeyCode::Resume => 147,
            KeyCode::Suspend => 148,
            KeyCode::Again => 149,
            KeyCode::Copy => 150,
            KeyCode::Cut => 151,
            KeyCode::Find => 152,
            KeyCode::Open => 153,
            KeyCode::Paste => 154,
            KeyCode::Props => 155,
            KeyCode::Select => 156,
            KeyCode::Undo => 157,
            KeyCode::Hiragana => 158,
            KeyCode::Katakana => 159,
            KeyCode::F1 => 160,
            KeyCode::F2 => 161,
            KeyCode::F3 => 162,
            KeyCode::F4 => 163,
            KeyCode::F5 => 164,
            KeyCode::F6 => 165,
            KeyCode::F7 => 166,
            KeyCode::F8 => 167,
            KeyCode::F9 => 168,
            KeyCode::F10 => 169,
            KeyCode::F11 => 170,
            KeyCode::F12 => 171,
            KeyCode::F13 => 172,
            KeyCode::F14 => 173,
            KeyCode::F15 => 174,
            KeyCode::F16 => 175,
            KeyCode::F17 => 176,
            KeyCode::F18 => 177,
            KeyCode::F19 => 178,
            KeyCode::F20 => 179,
            KeyCode::F21 => 180,
            KeyCode::F22 => 181,
            KeyCode::F23 => 182,
            KeyCode::F24 => 183,
            KeyCode::F25 => 184,
            KeyCode::F26 => 185,
            KeyCode::F27 => 186,
            KeyCode::F28 => 187,
            KeyCode::F29 => 188,
            KeyCode::F30 => 189,
            KeyCode::F31 => 190,
            KeyCode::F32 => 191,
            KeyCode::F33 => 192,
            KeyCode::F34 => 193,
            KeyCode::F35 => 194,
            KeyCode::Unidentified => 0,
        }
    }

    proof fn lemma_code_identifies(a: Self, b: Self) {
    }
}

/// The meaning of the key that was pressed, under the keyboard layout.
#[derive(Clone, PartialEq, Eq, Hash, Debug)]
pub enum Key {
    Alt,
    AltGraph,
    CapsLock,
    Control,
    Fn,
    FnLock,
    NumLock,
    ScrollLock,
    Shift,
    Symbol,
    SymbolLock,
    Meta,
    Hyper,
    Super,
    Enter,
    Tab,
    Space,
    ArrowDown,
    ArrowLeft,
    ArrowRight,
    ArrowUp,
    End,
    Home,
    PageDown,
    PageUp,
    Backspace,
    Clear,
    Copy,
    CrSel,
    Cut,
    Delete,
    EraseEof,
    ExSel,
    Insert,
    Paste,
    Redo,
    Undo,
    Accept,
    Again,
    Attn,
    Cancel,
    ContextMenu,
    Escape,
    Execute,
    Find,
    Help,
    Pause,
    Play,
    Props,
    Select,
    ZoomIn,
    ZoomOut,
    BrightnessDown,
    BrightnessUp,
    Eject,
    LogOff,
    Power,
    PowerOff,
    PrintScreen,
    Hibernate,
    Standby,
    WakeUp,
    AllCandidates,
    Alphanumeric,
    CodeInput,
    Compose,
    Convert,
    FinalMode,
    GroupFirst,
    GroupLast,
    GroupNext,
    GroupPrevious,
    ModeChange,
    NextCandidate,
    NonConvert,
    PreviousCandidate,
    Process,
    SingleCandidate,
    HangulMode,
    HanjaMode,
    JunjaMode,
    Eisu,
    Hankaku,
    Hiragana,
    HiraganaKatakana,
    KanaMode,
    KanjiMode,
    Katakana,
    Romaji,
    Zenkaku,
    ZenkakuHankaku,
    Soft1,
    Soft2,
    Soft3,
    Soft4,
    ChannelDown,
    ChannelUp,
    Close,
    MailForward,
    MailReply,
    MailSend,
    MediaClose,
    MediaFastForward,
    MediaPause,
    MediaPlay,
    MediaPlayPause,
    MediaRecord,
    MediaRewind,
    MediaStop,
    MediaTrackNext,
    MediaTrackPrevious,
    New,
    Open,
    Print,
    Save,
    SpellCheck,
    Key11,
    Key12,
    AudioBalanceLeft,
    AudioBalanceRight,
    AudioBassBoostDown,
    AudioBassBoostToggle,
    AudioBassBoostUp,
    AudioFaderFront,
    AudioFaderRear,
    AudioSurroundModeNext,
    AudioTrebleDown,
    AudioTrebleUp,
    AudioVolumeDown,
    AudioVolumeUp,
    AudioVolumeMute,
    MicrophoneToggle,
    MicrophoneVolumeDown,
    MicrophoneVolumeMute,
    SpeechCorrectionList,
    SpeechInputToggle,
    LaunchApplication1,
    LaunchApplication2,
    LaunchCalendar,
    LaunchContacts,
    LaunchMail,
    LaunchMediaPlayer,
    LaunchMusicPlayer,
    LaunchPhone,
    LaunchScreenSaver,
    LaunchSpreadsheet,
    LaunchWebBrowser,
    LaunchWebCam,
    LaunchWordProcessor,
    BrowserBack,
    BrowserFavorites,
    BrowserForward,
    BrowserHome,
    BrowserRefresh,
    BrowserSearch,
    BrowserStop,
    AppSwitch,
    Call,
    Camera,
    CameraFocus,
    EndCall,
    GoBack,
    GoHome,
    HeadsetHook,
    LastNumberRedial,
    Notification,
    MannerMode,
    VoiceDial,
    TV,
    TV3DMode,
    TVAntennaCable,
    TVAudioDescription,
    TVAudioDescriptionMixDown,
    TVAudioDescriptionMixUp,
    TVContentsMenu,
    TVDataService,
    TVInput,
    TVInputComponent1,
    TVInputComponent2,
    TVInputComposite1,
    TVInputComposite2,
    TVInputHDMI1,
    TVInputHDMI2,
    TVInputHDMI3,
    TVInputHDMI4,
    TVInputVGA1,
    TVMediaContext,
    TVNetwork,
    TVNumberEntry,
    TVPower,
    TVRadioService,
    TVSatellite,
    TVSatelliteBS,
    TVSatelliteCS,
    TVSatelliteToggle,
    TVTerrestrialAnalog,
    TVTerrestrialDigital,
    TVTimer,
    AVRInput,
    AVRPower,
    ColorF0Red,
    ColorF1Green,
    ColorF2Yellow,
    ColorF3Blue,
    ColorF4Grey,
    ColorF5Brown,
    ClosedCaptionToggle,
    Dimmer,
    DisplaySwap,
    DVR,
    Exit,
    FavoriteClear0,
    FavoriteClear1,
    FavoriteClear2,
    FavoriteClear3,
    FavoriteRecall0,
    FavoriteRecall1,
    FavoriteRecall2,
    FavoriteRecall3,
    FavoriteStore0,
    FavoriteStore1,
    FavoriteStore2,
    FavoriteStore3,
    Guide,
    GuideNextDay,
    GuidePreviousDay,
    Info,
    InstantReplay,
    Link,
    ListProgram,
    LiveContent,
    Lock,
    MediaApps,
    MediaAudioTrack,
    MediaLast,
    MediaSkipBackward,
    MediaSkipForward,
    MediaStepBackward,
    MediaStepForward,
    MediaTopMenu,
    NavigateIn,
    NavigateNext,
    NavigateOut,
    NavigatePrevious,
    NextFavoriteChannel,
    NextUserProfile,
    OnDemand,
    Pairing,
    PinPDown,
    PinPMove,
    PinPToggle,
    PinPUp,
    PlaySpeedDown,
    PlaySpeedReset,
    PlaySpeedUp,
    RandomToggle,
    RcLowBattery,
    RecordSpeedNext,
    RfBypass,
    ScanChannelsToggle,
    ScreenModeNext,
    Settings,
    SplitScreenToggle,
    STBInput,
    STBPower,
    Subtitle,
    Teletext,
    VideoModeNext,
    Wink,
    ZoomToggle,
    F1,
    F2,
    F3,
    F4,
    F5,
    F6,
    F7,
    F8,
    F9,
    F10,
    F11,
    F12,
    F13,
    F14,
    F15,
    F16,
    F17,
    F18,
    F19,
    F20,
    F21,
    F22,
    F23,
    F24,
    F25,
    F26,
    F27,
    F28,
    F29,
    F30,
    F31,
    F32,
    F33,
    F34,
    F35,
    /// A key that produces text.
    Character(String),
    /// A key that has no name here.
    Unidentified,
    /// A key that combines with the next one; the character it would give alone, if known.
    Dead(Option<char>),
}

} // verus!
