//! Run-wide settings and the clearance rules that guard them.
//!
//! A setting remembers who set it; a writer needs at least that clearance to
//! change it. The value is built once per run and passed to whoever needs
//! it, never kept in process-global storage.

use vstd::prelude::*;
use crate::text::str_eq;

verus! {

/// Clearance for changing a run-wide setting; higher outranks lower.
#[derive(Clone, Copy, PartialEq, Eq, Structural, Debug)]
pub enum AccessLevel {
    Unset,
    Config,
    Argument,
    Main,
    Overwrite,
}

impl Default for AccessLevel {
    /// An untouched setting carries no clearance.
    fn default() -> (r: AccessLevel)
        ensures
            r == AccessLevel::Unset,
    {
        AccessLevel::Unset
    }
}

impl AccessLevel {
    /// The numeric rank of a clearance.
    pub open spec fn spec_value(self) -> u8 {
        match self {
            AccessLevel::Unset => 0,
            AccessLevel::Config => 1,
            AccessLevel::Argument => 2,
            AccessLevel::Main => 3,
            AccessLevel::Overwrite => 4,
        }
    }

    /// The numeric rank, as an explicit mapping.
    pub fn value(&self) -> (r: u8)
        ensures
            r == self.spec_value(),
    {
        match self {
            AccessLevel::Unset => 0,
            AccessLevel::Config => 1,
            AccessLevel::Argument => 2,
            AccessLevel::Main => 3,
            AccessLevel::Overwrite => 4,
        }
    }

    /// The clearance a source file's name grants its writes.
    pub open spec fn spec_from_filename(n: Seq<char>) -> AccessLevel {
        if n == "main.rs"@ {
            AccessLevel::Main
        } else if n == "argument.rs"@ {
            AccessLevel::Argument
        } else if n == "config.rs"@ {
            AccessLevel::Config
        } else {
            AccessLevel::Unset
        }
    }

    /// Get the clearance that writes from the named source file carry:
    /// command-line handling outranks the configuration file, and anything
    /// unlisted gets none.
    pub fn from_filename(filename: &str) -> (r: Self)
        ensures
            r == AccessLevel::spec_from_filename(filename@),
    {
        if str_eq(filename, "main.rs") {
            AccessLevel::Main
        } else if str_eq(filename, "argument.rs") {
            AccessLevel::Argument
        } else if str_eq(filename, "config.rs") {
            AccessLevel::Config
        } else {
            AccessLevel::Unset
        }
    }
}

/// How much gets reported.
#[derive(Clone, Copy, PartialEq, Eq, Structural, Debug)]
pub enum Degree {
    Small,
    Medium,
    Large,
}

impl Default for Degree {
    /// Reporting defaults to the quiet end.
    fn default() -> (r: Degree)
        ensures
            r == Degree::Small,
    {
        Degree::Small
    }
}

/// What `str::to_lowercase` returns: a function of the characters alone.
pub uninterp spec fn lower_of(s: Seq<char>) -> Seq<char>;

/// Relies on `str::to_lowercase`: the result depends on the characters
/// alone, and an empty string stays empty.
#[verifier::external_body]
fn lowercase(s: &str) -> (r: String)
    ensures
        r@ == lower_of(s@),
        s@.len() == 0 ==> r@.len() == 0,
{
    s.to_lowercase()
}

/// The degree a lower-case label names, if any.
pub open spec fn spec_degree_label(t: Seq<char>) -> Option<Degree> {
    if t == "small"@ || t == "s"@ {
        Some(Degree::Small)
    } else if t == "medium"@ || t == "m"@ {
        Some(Degree::Medium)
    } else if t == "large"@ || t == "l"@ {
        Some(Degree::Large)
    } else {
        None
    }
}

impl Degree {
    /// The degree named by an already-lowered label, if any.
    pub fn from_lower_label(t: &str) -> (r: Option<Degree>)
        ensures
            r == spec_degree_label(t@),
    {
        if str_eq(t, "small") || str_eq(t, "s") {
            Some(Degree::Small)
        } else if str_eq(t, "medium") || str_eq(t, "m") {
            Some(Degree::Medium)
        } else if str_eq(t, "large") || str_eq(t, "l") {
            Some(Degree::Large)
        } else {
            None
        }
    }

    /// The degree a single character names, if any.
    pub fn try_from_char(c: char) -> (r: Result<Degree, ()>)
        ensures
            c == 's' || c == 'S' ==> r == Ok::<Degree, ()>(Degree::Small),
            c == 'm' || c == 'M' ==> r == Ok::<Degree, ()>(Degree::Medium),
            c == 'l' || c == 'L' ==> r == Ok::<Degree, ()>(Degree::Large),
            !(c == 's' || c == 'S' || c == 'm' || c == 'M' || c == 'l' || c == 'L') ==> r
                == Err::<Degree, ()>(()),
    {
        match c {
            's' | 'S' => Ok(Degree::Small),
            'm' | 'M' => Ok(Degree::Medium),
            'l' | 'L' => Ok(Degree::Large),
            _ => Err(()),
        }
    }

    /// The degree a single character names, or the default.
    pub fn from_char(c: char) -> (r: Degree)
        ensures
            c == 's' || c == 'S' ==> r == Degree::Small,
            c == 'm' || c == 'M' ==> r == Degree::Medium,
            c == 'l' || c == 'L' ==> r == Degree::Large,
            !(c == 's' || c == 'S' || c == 'm' || c == 'M' || c == 'l' || c == 'L') ==> r
                == Degree::Small,
    {
        match Degree::try_from_char(c) {
            Ok(d) => d,
            Err(_) => Degree::Small,
        }
    }

    /// The degree a label names, compared without regard to case, if any.
    pub fn try_from_label(s: &str) -> (r: Result<Degree, ()>)
        ensures
            r == (match spec_degree_label(lower_of(s@)) {
                Some(d) => Ok::<Degree, ()>(d),
                None => Err::<Degree, ()>(()),
            }),
    {
        let lowered = lowercase(s);
        match Degree::from_lower_label(lowered.as_str()) {
            Some(d) => Ok(d),
            None => Err(()),
        }
    }

    /// The degree a label names, compared without regard to case, or the
    /// default.
    pub fn from_label(s: &str) -> (r: Degree)
        ensures
            r == (match spec_degree_label(lower_of(s@)) {
                Some(d) => d,
                None => Degree::Small,
            }),
    {
        match Degree::try_from_label(s) {
            Ok(d) => d,
            Err(_) => Degree::Small,
        }
    }
}

/// The run-wide settings, each remembering the clearance that set it.
#[derive(Clone)]
pub struct Globals {
    warn: bool,
    warn_al: AccessLevel,
    message_amount: Degree,
    message_amount_al: AccessLevel,
    noconfig: bool,
    noconfig_al: AccessLevel,
}

impl Default for Globals {
    /// Untouched settings: warnings off, quiet reporting, configuration in
    /// use; nothing claimed by anyone.
    fn default() -> (r: Globals)
        ensures
            r.spec_warn() == (false, AccessLevel::Unset),
            r.spec_message_amount() == (Degree::Small, AccessLevel::Unset),
            r.spec_noconfig() == (false, AccessLevel::Unset),
    {
        Globals {
            warn: false,
            warn_al: AccessLevel::Unset,
            message_amount: Degree::Small,
            message_amount_al: AccessLevel::Unset,
            noconfig: false,
            noconfig_al: AccessLevel::Unset,
        }
    }
}

impl Globals {
    pub closed spec fn spec_warn(self) -> (bool, AccessLevel) {
        (self.warn, self.warn_al)
    }

    pub closed spec fn spec_message_amount(self) -> (Degree, AccessLevel) {
        (self.message_amount, self.message_amount_al)
    }

    pub closed spec fn spec_noconfig(self) -> (bool, AccessLevel) {
        (self.noconfig, self.noconfig_al)
    }

    /// Whether warnings are reported.
    pub fn get_warn(&self) -> (r: bool)
        ensures
            r == self.spec_warn().0,
    {
        self.warn
    }

    /// Who set the warning flag.
    pub fn get_warn_al(&self) -> (r: AccessLevel)
        ensures
            r == self.spec_warn().1,
    {
        self.warn_al
    }

    /// Set the warning flag. The write takes effect only with clearance at
    /// least as high as the current holder's; an overwrite changes the value
    /// without claiming the setting.
    pub fn set_warn(&mut self, v: bool, from: AccessLevel)
        ensures
            final(self).spec_message_amount() == old(self).spec_message_amount(),
            final(self).spec_noconfig() == old(self).spec_noconfig(),
            final(self).spec_warn() == (if from.spec_value() >= old(self).spec_warn().1.spec_value() {
                (v, if from == AccessLevel::Overwrite {
                    old(self).spec_warn().1
                } else {
                    from
                })
            } else {
                old(self).spec_warn()
            }),
    {
        if from.value() >= self.warn_al.value() {
            self.warn = v;
            if from != AccessLevel::Overwrite {
                self.warn_al = from;
            }
        }
    }

    /// How much gets reported.
    pub fn get_message_amount(&self) -> (r: Degree)
        ensures
            r == self.spec_message_amount().0,
    {
        self.message_amount
    }

    /// Who set the reporting amount.
    pub fn get_message_amount_al(&self) -> (r: AccessLevel)
        ensures
            r == self.spec_message_amount().1,
    {
        self.message_amount_al
    }

    /// Set the reporting amount, under the same clearance rule as the
    /// warning flag.
    pub fn set_message_amount(&mut self, v: Degree, from: AccessLevel)
        ensures
            final(self).spec_warn() == old(self).spec_warn(),
            final(self).spec_noconfig() == old(self).spec_noconfig(),
            final(self).spec_message_amount() == (if from.spec_value() >= old(
                self,
            ).spec_message_amount().1.spec_value() {
                (v, if from == AccessLevel::Overwrite {
                    old(self).spec_message_amount().1
                } else {
                    from
                })
            } else {
                old(self).spec_message_amount()
            }),
    {
        if from.value() >= self.message_amount_al.value() {
            self.message_amount = v;
            if from != AccessLevel::Overwrite {
                self.message_amount_al = from;
            }
        }
    }

    /// Whether the run goes on without a configuration file.
    pub fn get_noconfig(&self) -> (r: bool)
        ensures
            r == self.spec_noconfig().0,
    {
        self.noconfig
    }

    /// Who set the no-configuration flag.
    pub fn get_noconfig_al(&self) -> (r: AccessLevel)
        ensures
            r == self.spec_noconfig().1,
    {
        self.noconfig_al
    }

    /// Set the no-configuration flag, under the same clearance rule as the
    /// warning flag.
    pub fn set_noconfig(&mut self, v: bool, from: AccessLevel)
        ensures
            final(self).spec_warn() == old(self).spec_warn(),
            final(self).spec_message_amount() == old(self).spec_message_amount(),
            final(self).spec_noconfig() == (if from.spec_value() >= old(
                self,
            ).spec_noconfig().1.spec_value() {
                (v, if from == AccessLevel::Overwrite {
                    old(self).spec_noconfig().1
                } else {
                    from
                })
            } else {
                old(self).spec_noconfig()
            }),
    {
        if from.value() >= self.noconfig_al.value() {
            self.noconfig = v;
            if from != AccessLevel::Overwrite {
                self.noconfig_al = from;
            }
        }
    }
}

} // verus!
