//! Configuration for strict JSON, optional/trailing commas, and comments.

use vstd::prelude::*;

verus! {

/// Read access to the three parsing options.
///
/// When `comma` is false, commas between members are optional and trailing
/// commas are always allowed, whatever `trailing_comma` says.
pub trait Config {
    /// Whether commas between members are required.
    spec fn spec_comma(&self) -> bool;

    /// Whether a single trailing comma is permitted.
    spec fn spec_trailing_comma(&self) -> bool;

    /// Whether `//...` and `/*...*/` comments count as whitespace.
    spec fn spec_comments(&self) -> bool;

    /// Whether commas between members are required.
    fn comma(&self) -> (r: bool)
        ensures
            r == self.spec_comma(),
    ;

    /// Whether a single trailing comma is permitted.
    fn trailing_comma(&self) -> (r: bool)
        ensures
            r == self.spec_trailing_comma(),
    ;

    /// Whether `//...` and `/*...*/` comments count as whitespace.
    fn comments(&self) -> (r: bool)
        ensures
            r == self.spec_comments(),
    ;
}

/// Runtime configuration: the three options as plain fields.
#[derive(Clone, Copy, Debug, PartialEq, Eq, Structural)]
pub struct RTConfig {
    pub comma: bool,
    pub trailing: bool,
    pub cmnts: bool,
}

impl RTConfig {
    /// Strict JSON: commas required, no trailing comma, no comments.
    pub fn new() -> (r: RTConfig)
        ensures
            r.comma,
            !r.trailing,
            !r.cmnts,
    {
        RTConfig { comma: true, trailing: false, cmnts: false }
    }

    /// Sets whether commas are required.
    ///
    /// When `false`, commas are optional and trailing commas are allowed;
    /// when `true`, a previously granted trailing-comma allowance is
    /// revoked as well.
    pub fn require_comma(self, v: bool) -> (r: RTConfig)
        ensures
            r == (RTConfig { comma: v, trailing: !v, ..self }),
    {
        RTConfig { comma: v, trailing: !v, ..self }
    }

    /// Sets whether a single trailing comma is permitted.
    ///
    /// Has no effect when commas are optional (trailing commas are then
    /// always allowed).
    pub fn allow_trailing_comma(self, v: bool) -> (r: RTConfig)
        ensures
            r == (RTConfig { trailing: v, ..self }),
    {
        RTConfig { trailing: v, ..self }
    }

    /// Sets whether comments are allowed.
    pub fn allow_comments(self, v: bool) -> (r: RTConfig)
        ensures
            r == (RTConfig { cmnts: v, ..self }),
    {
        RTConfig { cmnts: v, ..self }
    }
}

impl Config for RTConfig {
    open spec fn spec_comma(&self) -> bool {
        self.comma
    }

    open spec fn spec_trailing_comma(&self) -> bool {
        self.trailing
    }

    open spec fn spec_comments(&self) -> bool {
        self.cmnts
    }

    fn comma(&self) -> (r: bool) {
        self.comma
    }

    fn trailing_comma(&self) -> (r: bool) {
        self.trailing
    }

    fn comments(&self) -> (r: bool) {
        self.cmnts
    }
}

/// Configuration fixed when it is built: it starts strict and each method
/// switches one option on, so a given value's options are known from the
/// calls that built it.
#[derive(Clone, Copy, Debug, PartialEq, Eq, Structural)]
pub struct CTConfig {
    pub comma: bool,
    pub trailing: bool,
    pub cmnts: bool,
}

impl CTConfig {
    /// Strict JSON: commas required, no trailing comma, no comments.
    pub fn new() -> (r: CTConfig)
        ensures
            r.comma,
            !r.trailing,
            !r.cmnts,
    {
        CTConfig { comma: true, trailing: false, cmnts: false }
    }

    /// Makes commas optional; trailing commas are then allowed
    /// automatically.
    pub fn optional_comma(self) -> (r: CTConfig)
        ensures
            r == (CTConfig { comma: false, trailing: true, ..self }),
    {
        CTConfig { comma: false, trailing: true, ..self }
    }

    /// Allows a single trailing comma.
    pub fn allow_trailing_comma(self) -> (r: CTConfig)
        ensures
            r == (CTConfig { trailing: true, ..self }),
    {
        CTConfig { trailing: true, ..self }
    }

    /// Allows comments.
    pub fn allow_comments(self) -> (r: CTConfig)
        ensures
            r == (CTConfig { cmnts: true, ..self }),
    {
        CTConfig { cmnts: true, ..self }
    }
}

impl Config for CTConfig {
    open spec fn spec_comma(&self) -> bool {
        self.comma
    }

    open spec fn spec_trailing_comma(&self) -> bool {
        self.trailing
    }

    open spec fn spec_comments(&self) -> bool {
        self.cmnts
    }

    fn comma(&self) -> (r: bool) {
        self.comma
    }

    fn trailing_comma(&self) -> (r: bool) {
        self.trailing
    }

    fn comments(&self) -> (r: bool) {
        self.cmnts
    }
}

} // verus!
