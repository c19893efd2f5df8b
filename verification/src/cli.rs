//! Command-line options of the game launcher: pixel scaling and the save
//! file path.
use vstd::prelude::*;
use crate::text::{chars_of, parse_u32, parsed_u32, str_eq};

verus! {

/// How the game world is scaled to the window.
#[derive(Debug, Clone, Copy, PartialEq, Eq, Structural)]
pub enum PixelScaleMode {
    /// The largest integer scale at which the whole map fits.
    ZoomToFit,
    /// A fixed integer scale (at least 1 is used).
    Fixed(u32),
}

/// The scaling mode and the integer scale currently in effect.
#[derive(Debug, Clone, Copy, PartialEq, Eq, Structural)]
pub struct PixelScaleConfig {
    pub mode: PixelScaleMode,
    pub effective_scale: u32,
}

impl Default for PixelScaleConfig {
    /// Zoom to fit, at scale 1 until the first frame computes it.
    fn default() -> (r: Self)
        ensures
            r.mode == PixelScaleMode::ZoomToFit,
            r.effective_scale == 1,
    {
        PixelScaleConfig { mode: PixelScaleMode::ZoomToFit, effective_scale: 1 }
    }
}

/// The effective scale of a mode: a fixed scale raised to at least 1, or
/// the zoom-to-fit scale computed for the window.
pub fn effective_scale(mode: PixelScaleMode, zoom_to_fit: u32) -> (r: u32)
    ensures
        r == match mode {
            PixelScaleMode::ZoomToFit => zoom_to_fit,
            PixelScaleMode::Fixed(n) => if n >= 1 { n } else { 1 },
        },
{
    match mode {
        PixelScaleMode::ZoomToFit => zoom_to_fit,
        PixelScaleMode::Fixed(n) => if n >= 1 { n } else { 1 },
    }
}

/// Why the command line was rejected.
#[derive(Debug, PartialEq, Eq)]
pub enum ArgError {
    /// `--scale` was the last argument.
    MissingScaleValue,
    /// The value after `--scale` is neither `fit`, `auto` nor an integer.
    InvalidScale(String),
    /// The value after `--scale` is zero.
    ZeroScale,
}

/// The first position of `flag` among the arguments.
pub open spec fn first_position(args: Seq<Seq<char>>, flag: Seq<char>) -> Option<int> {
    if exists|i: int| 0 <= i < args.len() && args[i] == flag {
        Some(choose|i: int| 0 <= i < args.len() && args[i] == flag && forall|k: int| 0 <= k < i ==> args[k] != flag)
    } else {
        None
    }
}

pub open spec fn arg_views(args: Seq<String>) -> Seq<Seq<char>> {
    args.map_values(|a: String| a@)
}

fn find_flag(args: &[String], flag: &str) -> (r: Option<usize>)
    ensures
        match r {
            Some(i) => i < args@.len() && first_position(arg_views(args@), flag@) == Some(i as int),
            None => first_position(arg_views(args@), flag@) is None,
        },
{
    let ghost a = arg_views(args@);
    let mut i: usize = 0;
    while i < args.len()
        invariant
            i <= args@.len(),
            a == arg_views(args@),
            forall|k: int| 0 <= k < i ==> a[k] != flag@,
        decreases args@.len() - i,
    {
        if str_eq(args[i].as_str(), flag) {
            proof {
                let j = choose|j: int| 0 <= j < a.len() && a[j] == flag@ && forall|k: int| 0 <= k < j ==> a[k] != flag@;
                assert(a[i as int] == flag@);
                assert(0 <= j < a.len() && a[j] == flag@ && forall|k: int| 0 <= k < j ==> a[k] != flag@);
                if j < i {
                    assert(a[j] != flag@);
                }
                if i < j {
                    assert(a[i as int] != flag@);
                }
            }
            return Some(i);
        }
        i = i + 1;
    }
    None
}

/// A rejected scale option, as values.
pub enum ScaleErrorView {
    Missing,
    Invalid(Seq<char>),
    Zero,
}

/// The scale option: absent, `fit` or `auto` (zoom to fit), or a positive
/// integer; a missing, non-numeric or zero value is an error.
pub open spec fn scale_option(args: Seq<Seq<char>>) -> Result<Option<PixelScaleMode>, ScaleErrorView> {
    match first_position(args, "--scale"@) {
        None => Ok(None),
        Some(i) => if i + 1 >= args.len() {
            Err(ScaleErrorView::Missing)
        } else {
            let v = args[i + 1];
            if v == "fit"@ || v == "auto"@ {
                Ok(Some(PixelScaleMode::ZoomToFit))
            } else {
                match parsed_u32(v) {
                    None => Err(ScaleErrorView::Invalid(v)),
                    Some(n) => if n == 0 {
                        Err(ScaleErrorView::Zero)
                    } else {
                        Ok(Some(PixelScaleMode::Fixed(n)))
                    },
                }
            }
        },
    }
}

/// Reads the `--scale` option (see `scale_option`).
pub fn parse_scale_arg(args: &[String]) -> (r: Result<Option<PixelScaleMode>, ArgError>)
    ensures
        match scale_option(arg_views(args@)) {
            Ok(m) => r == Ok::<Option<PixelScaleMode>, ArgError>(m),
            Err(ScaleErrorView::Missing) => r == Err::<Option<PixelScaleMode>, ArgError>(
                ArgError::MissingScaleValue,
            ),
            Err(ScaleErrorView::Zero) => r == Err::<Option<PixelScaleMode>, ArgError>(ArgError::ZeroScale),
            Err(ScaleErrorView::Invalid(v)) => r matches Err(ArgError::InvalidScale(s)) && s@ == v,
        },
{
    let ghost a = arg_views(args@);
    match find_flag(args, "--scale") {
        None => Ok(None),
        Some(i) => {
            if i >= args.len() - 1 {
                return Err(ArgError::MissingScaleValue);
            }
            let value = args[i + 1].as_str();
            assert(a[i + 1] == value@);
            if str_eq(value, "fit") || str_eq(value, "auto") {
                return Ok(Some(PixelScaleMode::ZoomToFit));
            }
            match parse_u32(value) {
                None => Err(ArgError::InvalidScale(value.to_string())),
                Some(n) => {
                    if n == 0 {
                        Err(ArgError::ZeroScale)
                    } else {
                        Ok(Some(PixelScaleMode::Fixed(n)))
                    }
                },
            }
        },
    }
}

/// The save file path: the argument after the first `--save`, if any.
pub fn parse_save_arg(args: &[String]) -> (r: Option<String>)
    ensures
        match first_position(arg_views(args@), "--save"@) {
            Some(i) => if i + 1 < args@.len() {
                r matches Some(s) && s@ == args@[i + 1]@
            } else {
                r is None
            },
            None => r is None,
        },
{
    match find_flag(args, "--save") {
        Some(i) => if i < args.len() - 1 {
            Some(args[i + 1].clone())
        } else {
            None
        },
        None => None,
    }
}

/// The argument looks like an option: it starts with `--`.
pub open spec fn is_option(a: Seq<char>) -> bool {
    a.len() >= 2 && a[0] == '-' && a[1] == '-'
}

/// The position of the project path among `args[i..]`: the first argument
/// that is not an option, skipping the value after `--scale` and `--save`.
pub open spec fn project_position(args: Seq<Seq<char>>, i: int) -> Option<int>
    decreases args.len() - i,
{
    if i < 0 || i >= args.len() {
        None
    } else if args[i] == "--scale"@ || args[i] == "--save"@ {
        if i + 2 >= args.len() {
            None
        } else {
            project_position(args, i + 2)
        }
    } else if is_option(args[i]) {
        project_position(args, i + 1)
    } else {
        Some(i)
    }
}

fn looks_like_option(a: &str) -> (r: bool)
    ensures
        r == is_option(a@),
{
    let c = chars_of(a);
    c.len() >= 2 && c[0] == '-' && c[1] == '-'
}

/// The project path: the first argument after the program name that is not
/// an option (see `project_position`).
pub fn project_path_arg(args: &[String]) -> (r: Option<String>)
    ensures
        match project_position(arg_views(args@), 1) {
            Some(i) => r matches Some(s) && 0 <= i < args@.len() && s@ == args@[i]@,
            None => r is None,
        },
{
    let ghost a = arg_views(args@);
    let mut i: usize = 1;
    while i < args.len()
        invariant
            1 <= i,
            a == arg_views(args@),
            project_position(a, 1) == project_position(a, i as int),
        decreases args@.len() - i,
    {
        let arg = args[i].as_str();
        assert(a[i as int] == arg@);
        if str_eq(arg, "--scale") || str_eq(arg, "--save") {
            if i >= args.len() - 2 {
                return None;
            }
            i = i + 2;
        } else if looks_like_option(arg) {
            i = i + 1;
        } else {
            return Some(args[i].clone());
        }
    }
    None
}

} // verus!
