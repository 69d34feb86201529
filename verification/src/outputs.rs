//! The output registry: physical display identity, modes, scale, transform,
//! and logical placement. Configuration transactions over these live in
//! `config`.

use vstd::prelude::*;
use vstd::string::StrSliceExecFns;

verus! {

/// One display mode: pixel size, refresh rate in millihertz, and whether the
/// hardware prefers it.
#[derive(Clone, Copy, Debug, PartialEq, Eq, Structural)]
pub struct Mode {
    pub width: u16,
    pub height: u16,
    pub refresh_rate: u32,
    pub is_preferred: bool,
}

/// Identifier of one physical output head.
#[derive(Clone, Copy, Debug, PartialEq, Eq, Hash, Structural)]
pub struct OutputId(pub u32);

/// Output transform: a rotation in quarter turns, each optionally flipped.
#[derive(Clone, Copy, Debug, PartialEq, Eq, Structural)]
pub enum Transform {
    Normal,
    Rotate90,
    Rotate180,
    Rotate270,
    Flipped,
    Flipped90,
    Flipped180,
    Flipped270,
}

/// The cycle the rotate-output keybinding steps through.
pub open spec fn spec_next_transform(t: Transform) -> Transform {
    match t {
        Transform::Normal => Transform::Rotate90,
        Transform::Rotate90 => Transform::Rotate180,
        Transform::Rotate180 => Transform::Rotate270,
        Transform::Rotate270 => Transform::Flipped,
        Transform::Flipped => Transform::Flipped90,
        Transform::Flipped90 => Transform::Flipped180,
        Transform::Flipped180 => Transform::Flipped270,
        Transform::Flipped270 => Transform::Normal,
    }
}

/// Step the transform one position along the rotate cycle.
pub fn next_transform(t: Transform) -> (r: Transform)
    ensures
        r == spec_next_transform(t),
{
    match t {
        Transform::Normal => Transform::Rotate90,
        Transform::Rotate90 => Transform::Rotate180,
        Transform::Rotate180 => Transform::Rotate270,
        Transform::Rotate270 => Transform::Flipped,
        Transform::Flipped => Transform::Flipped90,
        Transform::Flipped90 => Transform::Flipped180,
        Transform::Flipped180 => Transform::Flipped270,
        Transform::Flipped270 => Transform::Normal,
    }
}

/// Position and extent of an enabled output in the shared logical coordinate
/// space. The scale factor is fractional, carried in thousandths.
#[derive(Clone, Copy, Debug, PartialEq, Eq, Structural)]
pub struct LogicalOutput {
    pub x: i32,
    pub y: i32,
    pub width: u32,
    pub height: u32,
    pub scale_millis: u32,
    pub transform: Transform,
}

/// One physical display and its configuration.
pub struct Output {
    /// The mode a configuration transaction requested.
    pub mode: Option<Mode>,
    /// Every mode the hardware supports.
    pub modes: Vec<Mode>,
    /// Index into `modes` of the active mode; `None` while disabled.
    pub current_mode: Option<usize>,
    pub vrr_enabled: bool,
    pub name: String,
    pub logical: Option<LogicalOutput>,
    pub transform: Transform,
    /// Requested fractional scale in thousandths.
    pub scale_millis: Option<u32>,
    pub off: bool,
    pub variable_refresh_rate: bool,
    pub make: String,
    pub model: String,
    pub physical_size: Option<(u16, u16)>,
}

/// The mathematical value of an `Output`.
#[verifier::ext_equal]
pub struct OutputModel {
    pub mode: Option<Mode>,
    pub modes: Seq<Mode>,
    pub current_mode: Option<usize>,
    pub vrr_enabled: bool,
    pub name: Seq<char>,
    pub logical: Option<LogicalOutput>,
    pub transform: Transform,
    pub scale_millis: Option<u32>,
    pub off: bool,
    pub variable_refresh_rate: bool,
    pub make: Seq<char>,
    pub model: Seq<char>,
    pub physical_size: Option<(u16, u16)>,
}

impl View for Output {
    type V = OutputModel;

    open spec fn view(&self) -> OutputModel {
        OutputModel {
            mode: self.mode,
            modes: self.modes@,
            current_mode: self.current_mode,
            vrr_enabled: self.vrr_enabled,
            name: self.name@,
            logical: self.logical,
            transform: self.transform,
            scale_millis: self.scale_millis,
            off: self.off,
            variable_refresh_rate: self.variable_refresh_rate,
            make: self.make@,
            model: self.model@,
            physical_size: self.physical_size,
        }
    }
}

impl Output {
    /// The value of an output record that carries only a name.
    pub open spec fn bare_model(name: Seq<char>) -> OutputModel {
        OutputModel {
            mode: None,
            modes: Seq::empty(),
            current_mode: None,
            vrr_enabled: false,
            name: name,
            logical: None,
            transform: Transform::Normal,
            scale_millis: None,
            off: false,
            variable_refresh_rate: false,
            make: Seq::empty(),
            model: Seq::empty(),
            physical_size: None,
        }
    }

    /// A disabled output that carries only its name, as a configuration
    /// entry starts out when the compositor has no stored configuration for
    /// that head.
    pub fn bare(name: String) -> (r: Output)
        ensures
            r@ == Output::bare_model(name@),
    {
        let r = Output {
            mode: None,
            modes: Vec::new(),
            current_mode: None,
            vrr_enabled: false,
            name,
            logical: None,
            transform: Transform::Normal,
            scale_millis: None,
            off: false,
            variable_refresh_rate: false,
            make: String::new(),
            model: String::new(),
            physical_size: None,
        };
        proof {
            assert(r@ =~= Output::bare_model(name@));
        }
        r
    }

    /// Copy an output record; the copy has the same mathematical value.
    pub fn duplicate(&self) -> (r: Output)
        ensures
            r@ == self@,
    {
        let mut modes: Vec<Mode> = Vec::new();
        let mut i: usize = 0;
        while i < self.modes.len()
            invariant
                i <= self.modes@.len(),
                modes@ =~= self.modes@.subrange(0, i as int),
            decreases self.modes@.len() - i,
        {
            modes.push(self.modes[i]);
            i += 1;
        }
        proof {
            assert(modes@ =~= self.modes@);
        }
        let r = Output {
            mode: self.mode,
            modes,
            current_mode: self.current_mode,
            vrr_enabled: self.vrr_enabled,
            name: self.name.clone(),
            logical: self.logical,
            transform: self.transform,
            scale_millis: self.scale_millis,
            off: self.off,
            variable_refresh_rate: self.variable_refresh_rate,
            make: self.make.clone(),
            model: self.model.clone(),
            physical_size: self.physical_size,
        };
        proof {
            assert(r@ =~= self@);
        }
        r
    }
}

/// ASCII letters fold to lower case; everything else compares as it is.
pub open spec fn lower_char(c: char) -> char {
    if 'A' <= c && c <= 'Z' {
        ((c as u32) + 32) as char
    } else {
        c
    }
}

/// Case-insensitive name equality, folding ASCII letters only.
pub open spec fn name_eq_ci(a: Seq<char>, b: Seq<char>) -> bool {
    a.map_values(|c: char| lower_char(c)) == b.map_values(|c: char| lower_char(c))
}

/// Compare two names, ignoring the case of ASCII letters.
pub fn str_eq_ignore_ascii_case(a: &str, b: &str) -> (r: bool)
    ensures
        r == name_eq_ci(a@, b@),
{
    let a_len = a.unicode_len();
    let b_len = b.unicode_len();
    if a_len != b_len {
        proof {
            assert(a@.map_values(|c: char| lower_char(c)).len() == a@.len());
            assert(b@.map_values(|c: char| lower_char(c)).len() == b@.len());
        }
        return false;
    }
    let mut i: usize = 0;
    while i < a_len
        invariant
            i <= a_len,
            a_len == a@.len(),
            b_len == b@.len(),
            a_len == b_len,
            forall|j: int| 0 <= j < i ==> lower_char(a@[j]) == lower_char(b@[j]),
        decreases a_len - i,
    {
        let ca = a.get_char(i);
        let cb = b.get_char(i);
        let la = to_lower_exec(ca);
        let lb = to_lower_exec(cb);
        if la != lb {
            proof {
                assert(a@.map_values(|c: char| lower_char(c))[i as int] == lower_char(a@[i as int]));
                assert(b@.map_values(|c: char| lower_char(c))[i as int] == lower_char(b@[i as int]));
            }
            return false;
        }
        i += 1;
    }
    proof {
        assert(a@.map_values(|c: char| lower_char(c)) =~= b@.map_values(|c: char| lower_char(c)));
    }
    true
}

fn to_lower_exec(c: char) -> (r: char)
    ensures
        r == lower_char(c),
{
    let v = c as u32;
    if 65 <= v && v <= 90 {
        let l = (v + 32) as u8;
        l as char
    } else {
        c
    }
}

/// The compositor's set of outputs.
pub struct Outputs(pub Vec<Output>);

impl Outputs {
    pub open spec fn view(&self) -> Seq<OutputModel> {
        self.0@.map_values(|o: Output| o@)
    }

    pub fn new() -> (r: Outputs)
        ensures
            r@ =~= Seq::<OutputModel>::empty(),
    {
        Outputs(Vec::new())
    }

    /// Look an output up by name, ignoring ASCII case. Returns the first
    /// match in registration order.
    pub fn find(&self, name: &str) -> (r: Option<&Output>)
        ensures
            match r {
                Some(o) => exists|i: int|
                    0 <= i < self@.len() && self@[i] == o@ && name_eq_ci(self@[i].name, name@)
                        && (forall|j: int| 0 <= j < i ==> !name_eq_ci(self@[j].name, name@)),
                None => forall|i: int| 0 <= i < self@.len() ==> !name_eq_ci(self@[i].name, name@),
            },
    {
        let mut i: usize = 0;
        while i < self.0.len()
            invariant
                i <= self.0@.len(),
                self@.len() == self.0@.len(),
                forall|j: int| 0 <= j < i ==> !name_eq_ci(self@[j].name, name@),
            decreases self.0@.len() - i,
        {
            proof {
                assert(self@[i as int] == self.0@[i as int]@);
            }
            if str_eq_ignore_ascii_case(self.0[i].name.as_str(), name) {
                return Some(&self.0[i]);
            }
            i += 1;
        }
        None
    }

    /// Position of the first output whose name matches, ignoring ASCII case.
    pub fn find_index(&self, name: &str) -> (r: Option<usize>)
        ensures
            match r {
                Some(i) => i < self@.len() && name_eq_ci(self@[i as int].name, name@) && (forall|
                    j: int,
                |
                    0 <= j < i ==> !name_eq_ci(self@[j].name, name@)),
                None => forall|i: int| 0 <= i < self@.len() ==> !name_eq_ci(self@[i].name, name@),
            },
    {
        let mut i: usize = 0;
        while i < self.0.len()
            invariant
                i <= self.0@.len(),
                self@.len() == self.0@.len(),
                forall|j: int| 0 <= j < i ==> !name_eq_ci(self@[j].name, name@),
            decreases self.0@.len() - i,
    {
            proof {
                assert(self@[i as int] == self.0@[i as int]@);
            }
            if str_eq_ignore_ascii_case(self.0[i].name.as_str(), name) {
                return Some(i);
            }
            i += 1;
        }
        None
    }
}

} // verus!
