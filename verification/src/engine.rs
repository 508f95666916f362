//! The normalized artifact model, target-OS selection, and the derived
//! identity key that snapshotting and diffing compare artifacts by.
use vstd::prelude::*;

use crate::strops::{lower_of, str_eq, to_lowercase};

verus! {

/// Which operating system a scan targets.
#[derive(Debug, Clone, Copy, PartialEq, Eq, Structural)]
pub enum TargetOs {
    Linux,
    Windows,
}

/// A normalized record of one discovered autostart / persistence mechanism.
/// Collectors produce these; the matcher and the snapshot engine consume
/// them. `kind` is drawn from the same vocabulary that rule `check.kind`
/// fields reference.
#[derive(Debug)]
pub struct Artifact {
    pub kind: String,
    pub source: String,
    pub name: String,
    pub command: Option<String>,
    pub path: Option<String>,
    pub raw: Option<String>,
}

impl Clone for Artifact {
    fn clone(&self) -> (r: Self)
        ensures
            r == *self,
    {
        Artifact {
            kind: self.kind.clone(),
            source: self.source.clone(),
            name: self.name.clone(),
            command: crate::strops::clone_opt_string(&self.command),
            path: crate::strops::clone_opt_string(&self.path),
            raw: crate::strops::clone_opt_string(&self.raw),
        }
    }
}

/// The text of an optional field: absent fields read as empty.
pub open spec fn opt_text(o: Option<String>) -> Seq<char> {
    match o {
        Option::Some(s) => s@,
        Option::None => Seq::empty(),
    }
}

/// The derived identity key of an artifact: all six fields in fixed order,
/// missing optional fields as empty, joined with a `|` delimiter. Two
/// artifacts are "the same" for deduplication and diffing iff their keys are
/// equal.
pub open spec fn spec_key(a: Artifact) -> Seq<char> {
    a.kind@ + "|"@ + a.source@ + "|"@ + a.name@ + "|"@ + opt_text(a.command) + "|"@ + opt_text(
        a.path,
    ) + "|"@ + opt_text(a.raw)
}

fn append_opt(out: &mut String, o: &Option<String>)
    ensures
        final(out)@ == old(out)@ + opt_text(*o),
{
    match o {
        Option::Some(s) => {
            out.append(s.as_str());
        },
        Option::None => {
            proof {
                assert(old(out)@ + opt_text(*o) =~= old(out)@);
            }
        },
    }
}

/// Build the derived identity key of an artifact.
pub fn format_key(a: &Artifact) -> (r: String)
    ensures
        r@ == spec_key(*a),
{
    let mut out = String::new();
    proof {
        assert(Seq::<char>::empty() + a.kind@ =~= a.kind@);
    }
    out.append(a.kind.as_str());
    out.append("|");
    out.append(a.source.as_str());
    out.append("|");
    out.append(a.name.as_str());
    out.append("|");
    append_opt(&mut out, &a.command);
    out.append("|");
    append_opt(&mut out, &a.path);
    out.append("|");
    append_opt(&mut out, &a.raw);
    out
}

/// Relies on chrono::Utc::now and chrono::DateTime::timestamp: the current
/// wall-clock time as Unix seconds. Nothing is promised of the value; it
/// depends on the clock.
#[verifier::external_body]
pub(crate) fn now_utc_seconds() -> i64 {
    chrono::Utc::now().timestamp()
}

/// Everything that can go wrong inside the core engine: configuration
/// errors, surfaced with the offending value.
#[derive(Debug)]
pub enum EngineError {
    /// A rule carries a regex pattern that does not compile.
    InvalidRegex { pattern: String },
    /// The OS selection argument is not one of auto, linux, windows.
    InvalidOsArg { arg: String },
    /// Automatic OS selection was asked for, but the host is unsupported.
    UnsupportedHostOs,
}

/// The descriptive text `EngineError::message` renders for each error.
pub open spec fn spec_error_message(e: EngineError) -> Seq<char> {
    match e {
        EngineError::InvalidRegex { pattern } => "Invalid regex pattern: "@ + pattern@,
        EngineError::InvalidOsArg { arg } => "Invalid --os value: "@ + arg@
            + " (use auto|linux|windows)"@,
        EngineError::UnsupportedHostOs => "Unsupported host OS for auto-detect"@,
    }
}

impl EngineError {
    /// A human-readable description that names the offending value.
    pub fn message(&self) -> (r: String)
        ensures
            r@ == spec_error_message(*self),
    {
        match self {
            EngineError::InvalidRegex { pattern } => {
                let mut s = "Invalid regex pattern: ".to_owned();
                s.append(pattern.as_str());
                s
            },
            EngineError::InvalidOsArg { arg } => {
                let mut s = "Invalid --os value: ".to_owned();
                s.append(arg.as_str());
                s.append(" (use auto|linux|windows)");
                s
            },
            EngineError::UnsupportedHostOs => "Unsupported host OS for auto-detect".to_owned(),
        }
    }
}

/// Resolve an OS selection argument, compared case-insensitively. `auto`
/// resolves to `host`, the host platform the caller runs on, or fails when
/// the caller has none to offer; `linux` and `windows` select directly; any
/// other value is rejected.
pub fn detect_os(arg: &str, host: Option<TargetOs>) -> (r: Result<TargetOs, EngineError>)
    ensures
        ({
            let l = lower_of(arg@);
            if l == "auto"@ {
                match host {
                    Option::Some(h) => r == Ok::<TargetOs, EngineError>(h),
                    Option::None => r matches Err(EngineError::UnsupportedHostOs),
                }
            } else if l == "linux"@ {
                r == Ok::<TargetOs, EngineError>(TargetOs::Linux)
            } else if l == "windows"@ {
                r == Ok::<TargetOs, EngineError>(TargetOs::Windows)
            } else {
                r matches Err(EngineError::InvalidOsArg { arg: a }) && a@ == arg@
            }
        }),
{
    let lowered = to_lowercase(arg);
    if str_eq(lowered.as_str(), "auto") {
        match host {
            Option::Some(h) => Ok(h),
            Option::None => Err(EngineError::UnsupportedHostOs),
        }
    } else if str_eq(lowered.as_str(), "linux") {
        Ok(TargetOs::Linux)
    } else if str_eq(lowered.as_str(), "windows") {
        Ok(TargetOs::Windows)
    } else {
        Err(EngineError::InvalidOsArg { arg: arg.to_owned() })
    }
}

} // verus!
