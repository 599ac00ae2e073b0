//! The parsed representation of a `[defaultboot]` section, together
//! with the mathematical view of each type.
//!
//! All string payloads are borrowed slices of the input buffer; the
//! parser never copies text.  The spec-level twins (`SpecSection`,
//! `SpecAutoConfig`, `SpecAutoOption`) carry the same data as
//! `Seq<char>` and are what every contract speaks about.

use vstd::prelude::*;

verus! {

/// One parsed `[defaultboot]` section: exactly one of the three
/// mutually exclusive body forms.
#[derive(Clone, Copy, Debug, PartialEq, Eq)]
pub enum Section<'a> {
    /// `default = LABEL`: boot the entry with this label.
    Default(&'a str),
    /// `defaultmenu = LABEL`: show the menu with this label.
    Menu(&'a str),
    /// `defaultauto` followed by keyed options.
    Auto(AutoConfig<'a>),
}

/// The record built by folding auto-boot options left to right.
/// Every field defaults to the empty string and holds the raw text of
/// the last explicit value given for it.
#[derive(Clone, Copy, Debug, PartialEq, Eq)]
pub struct AutoConfig<'a> {
    pub target: &'a str,
    pub default: &'a str,
    pub prompt: &'a str,
    pub timeout: &'a str,
    pub secure: &'a str,
}

/// One parsed auto-boot option.  `Target` always carries a value; the
/// other four keywords may appear bare, in which case they carry
/// `None` and leave the accumulator untouched.
#[derive(Clone, Copy, Debug, PartialEq, Eq)]
pub enum AutoOption<'a> {
    Target(&'a str),
    Default(Option<&'a str>),
    Prompt(Option<&'a str>),
    Timeout(Option<&'a str>),
    Secure(Option<&'a str>),
}

/// Spec-level view of [`Section`].
pub enum SpecSection {
    Default(Seq<char>),
    Menu(Seq<char>),
    Auto(SpecAutoConfig),
}

/// Spec-level view of [`AutoConfig`].
pub struct SpecAutoConfig {
    pub target: Seq<char>,
    pub default: Seq<char>,
    pub prompt: Seq<char>,
    pub timeout: Seq<char>,
    pub secure: Seq<char>,
}

/// Spec-level view of [`AutoOption`].
pub enum SpecAutoOption {
    Target(Seq<char>),
    Default(Option<Seq<char>>),
    Prompt(Option<Seq<char>>),
    Timeout(Option<Seq<char>>),
    Secure(Option<Seq<char>>),
}

impl<'a> View for AutoConfig<'a> {
    type V = SpecAutoConfig;

    open spec fn view(&self) -> SpecAutoConfig {
        SpecAutoConfig {
            target: self.target@,
            default: self.default@,
            prompt: self.prompt@,
            timeout: self.timeout@,
            secure: self.secure@,
        }
    }
}

impl<'a> View for Section<'a> {
    type V = SpecSection;

    open spec fn view(&self) -> SpecSection {
        match *self {
            Section::Default(label) => SpecSection::Default(label@),
            Section::Menu(label) => SpecSection::Menu(label@),
            Section::Auto(cfg) => SpecSection::Auto(cfg@),
        }
    }
}

impl<'a> View for AutoOption<'a> {
    type V = SpecAutoOption;

    open spec fn view(&self) -> SpecAutoOption {
        match *self {
            AutoOption::Target(v) => SpecAutoOption::Target(v@),
            AutoOption::Default(v) => SpecAutoOption::Default(spec_view_opt(v)),
            AutoOption::Prompt(v) => SpecAutoOption::Prompt(spec_view_opt(v)),
            AutoOption::Timeout(v) => SpecAutoOption::Timeout(spec_view_opt(v)),
            AutoOption::Secure(v) => SpecAutoOption::Secure(spec_view_opt(v)),
        }
    }
}

/// View of an optional option value.
pub open spec fn spec_view_opt(v: Option<&str>) -> Option<Seq<char>> {
    match v {
        Some(s) => Some(s@),
        None => None,
    }
}

/// The all-defaults record that the option fold starts from: every
/// field is the empty string.
pub open spec fn spec_auto_init() -> SpecAutoConfig {
    SpecAutoConfig {
        target: Seq::empty(),
        default: Seq::empty(),
        prompt: Seq::empty(),
        timeout: Seq::empty(),
        secure: Seq::empty(),
    }
}

impl<'a> Default for AutoConfig<'a> {
    /// The all-defaults record: five empty fields.
    fn default() -> (r: Self)
        ensures
            r@ == spec_auto_init(),
    {
        proof {
            reveal_strlit("");
            assert(""@ =~= Seq::<char>::empty());
        }
        AutoConfig { target: "", default: "", prompt: "", timeout: "", secure: "" }
    }
}

/// A syntax error: the character position at which parsing failed.
#[derive(Clone, Copy, Debug, PartialEq, Eq, Structural)]
pub struct ParseError {
    pub pos: usize,
}

} // verus!
