use vstd::prelude::*;

verus! {

/// Result code of a successful mode change.
pub const DISP_CHANGE_SUCCESSFUL: i32 = 0;
/// Result code of a mode change that takes effect after a restart.
pub const DISP_CHANGE_RESTART: i32 = 1;
/// Result code of a driver that failed to apply the mode.
pub const DISP_CHANGE_FAILED: i32 = -1;
/// Result code of a mode that the display does not support.
pub const DISP_CHANGE_BADMODE: i32 = -2;
/// Result code of settings that could not be written to the registry.
pub const DISP_CHANGE_NOTUPDATED: i32 = -3;
/// Result code of an invalid set of flags.
pub const DISP_CHANGE_BADFLAGS: i32 = -4;
/// Result code of an invalid parameter.
pub const DISP_CHANGE_BADPARAM: i32 = -5;
/// Result code of a system that is DualView capable.
pub const DISP_CHANGE_BADDUALVIEW: i32 = -6;

/// A change that the display backend accepted.
#[derive(Clone, Copy, Debug, PartialEq, Eq, Structural)]
pub enum DisplayChangeOk {
    /// The new settings are in effect.
    Applied,
    /// The new settings take effect after a restart.
    NeedRestart,
}

/// A known reason for the backend to refuse a change.
#[derive(Clone, Copy, Debug, PartialEq, Eq, Structural)]
pub enum ChangeFailure {
    BadDualView,
    BadMode,
    DriverFailed,
    NotUpdated,
}

/// A refusal that well-formed calls never cause.
#[derive(Clone, Copy, Debug, PartialEq, Eq, Structural)]
pub enum ChangeBug {
    BadParam,
    BadFlags,
}

/// A change that did not happen.
#[derive(Clone, Copy, Debug, PartialEq, Eq, Structural)]
pub enum DisplayChangeErr {
    /// The backend refused the change for a known reason.
    Refused(ChangeFailure),
    /// The backend refused the call itself, which points to a bug.
    Bug(ChangeBug),
    /// The current settings of the display could not be read.
    CouldNotGetDisplaySettings,
}

/// The result codes that a mode change returns.
pub open spec fn is_known_disp_change(code: i32) -> bool {
    DISP_CHANGE_BADDUALVIEW <= code <= DISP_CHANGE_RESTART
}

/// The meaning of each result code of a mode change.
pub open spec fn disp_change_meaning(code: i32) -> Result<DisplayChangeOk, DisplayChangeErr> {
    if code == DISP_CHANGE_SUCCESSFUL {
        Ok(DisplayChangeOk::Applied)
    } else if code == DISP_CHANGE_RESTART {
        Ok(DisplayChangeOk::NeedRestart)
    } else if code == DISP_CHANGE_BADDUALVIEW {
        Err(DisplayChangeErr::Refused(ChangeFailure::BadDualView))
    } else if code == DISP_CHANGE_BADMODE {
        Err(DisplayChangeErr::Refused(ChangeFailure::BadMode))
    } else if code == DISP_CHANGE_FAILED {
        Err(DisplayChangeErr::Refused(ChangeFailure::DriverFailed))
    } else if code == DISP_CHANGE_NOTUPDATED {
        Err(DisplayChangeErr::Refused(ChangeFailure::NotUpdated))
    } else if code == DISP_CHANGE_BADPARAM {
        Err(DisplayChangeErr::Bug(ChangeBug::BadParam))
    } else {
        Err(DisplayChangeErr::Bug(ChangeBug::BadFlags))
    }
}

/// Classifies the result code of a mode change.
pub fn disp_change_to_enum(code: i32) -> (r: Result<DisplayChangeOk, DisplayChangeErr>)
    requires
        is_known_disp_change(code),
    ensures
        r == disp_change_meaning(code),
        r is Ok <==> code == DISP_CHANGE_SUCCESSFUL || code == DISP_CHANGE_RESTART,
{
    if code == DISP_CHANGE_SUCCESSFUL {
        Ok(DisplayChangeOk::Applied)
    } else if code == DISP_CHANGE_RESTART {
        Ok(DisplayChangeOk::NeedRestart)
    } else if code == DISP_CHANGE_BADDUALVIEW {
        Err(DisplayChangeErr::Refused(ChangeFailure::BadDualView))
    } else if code == DISP_CHANGE_BADMODE {
        Err(DisplayChangeErr::Refused(ChangeFailure::BadMode))
    } else if code == DISP_CHANGE_FAILED {
        Err(DisplayChangeErr::Refused(ChangeFailure::DriverFailed))
    } else if code == DISP_CHANGE_NOTUPDATED {
        Err(DisplayChangeErr::Refused(ChangeFailure::NotUpdated))
    } else if code == DISP_CHANGE_BADPARAM {
        Err(DisplayChangeErr::Bug(ChangeBug::BadParam))
    } else {
        Err(DisplayChangeErr::Bug(ChangeBug::BadFlags))
    }
}

/// The sentence that reports each accepted change to a user.
pub open spec fn change_text(v: DisplayChangeOk) -> Seq<char> {
    match v {
        DisplayChangeOk::Applied => "Display successfully changed."@,
        DisplayChangeOk::NeedRestart => "The computer must be restarted for the graphics mode to work."@,
    }
}

impl DisplayChangeOk {
    /// The sentence that reports the change to a user.
    pub fn message(&self) -> (r: &'static str)
        ensures
            r@ == change_text(*self),
    {
        match self {
            DisplayChangeOk::Applied => "Display successfully changed.",
            DisplayChangeOk::NeedRestart => "The computer must be restarted for the graphics mode to work.",
        }
    }
}

/// The sentence that gives each reason of a refusal; one that points to a bug says so.
pub open spec fn failure_text(v: DisplayChangeErr) -> Seq<char> {
    match v {
        DisplayChangeErr::Refused(ChangeFailure::BadDualView) => "The settings change was unsuccessful because the system is DualView capable."@,
        DisplayChangeErr::Refused(ChangeFailure::BadMode) => "The config requested is not supported."@,
        DisplayChangeErr::Refused(ChangeFailure::DriverFailed) => "The display driver failed to apply the specified graphics mode."@,
        DisplayChangeErr::Refused(ChangeFailure::NotUpdated) => "Unable to write settings to the registry."@,
        DisplayChangeErr::Bug(ChangeBug::BadParam) => "An invalid parameter was passed in. This can include an invalid flag or combination of flags. This is likely to be a bug !"@,
        DisplayChangeErr::Bug(ChangeBug::BadFlags) => "An invalid set of flags was passed in. This is likely to be a bug !"@,
        DisplayChangeErr::CouldNotGetDisplaySettings => "Couldn't get display settings."@,
    }
}

impl DisplayChangeErr {
    /// The reason of the refusal, in words.
    pub fn message(&self) -> (r: &'static str)
        ensures
            r@ == failure_text(*self),
    {
        match self {
            DisplayChangeErr::Refused(ChangeFailure::BadDualView) => "The settings change was unsuccessful because the system is DualView capable.",
            DisplayChangeErr::Refused(ChangeFailure::BadMode) => "The config requested is not supported.",
            DisplayChangeErr::Refused(ChangeFailure::DriverFailed) => "The display driver failed to apply the specified graphics mode.",
            DisplayChangeErr::Refused(ChangeFailure::NotUpdated) => "Unable to write settings to the registry.",
            DisplayChangeErr::Bug(ChangeBug::BadParam) => "An invalid parameter was passed in. This can include an invalid flag or combination of flags. This is likely to be a bug !",
            DisplayChangeErr::Bug(ChangeBug::BadFlags) => "An invalid set of flags was passed in. This is likely to be a bug !",
            DisplayChangeErr::CouldNotGetDisplaySettings => "Couldn't get display settings.",
        }
    }
}

} // verus!
