use vstd::prelude::*;

verus! {

/// How trailing commas after the last member or element are handled.
#[derive(Clone, Copy, Debug, PartialEq, Eq, Structural)]
pub enum TrailingCommaStyle {
    /// Never emit a trailing comma.
    Never,
    /// Add a trailing comma after the last entry of a multi-line layout.
    Always,
    /// Keep a trailing comma that the source already had; add none.
    Preserve,
}

/// Which quote character string literals are written with.
#[derive(Clone, Copy, Debug, PartialEq, Eq, Structural)]
pub enum QuoteStyle {
    /// Rewrite to double quotes where the content permits it.
    Double,
    /// Rewrite to single quotes where the content permits it.
    Single,
    /// Keep the quote characters the source used.
    Preserve,
}

/// Spacing inside mustache delimiters.
#[derive(Clone, Copy, Debug, PartialEq, Eq, Structural)]
pub struct MustacheSpacing {
    /// Emit a space right after the opening `{{`.
    pub after_open: bool,
    /// Emit a space right before the closing `}}`.
    pub before_close: bool,
    /// Emit spaces around an operator character such as `#` or `/`.
    pub around_operators: bool,
}

/// How much indentation a mustache section adds to its body.
#[derive(Clone, Copy, Debug, PartialEq, Eq, Structural)]
pub enum MustacheIndentStyle {
    /// Indent the body one level past the delimiters.
    Block,
    /// Keep the body at the delimiters' own level.
    Preserve,
    /// Keep the body at the delimiters' own level.
    Minimal,
}

/// How comments are re-emitted.
#[derive(Clone, Copy, Debug, PartialEq, Eq, Structural)]
pub struct CommentHandling {
    /// Keep the comment text exactly as written.
    pub preserve_formatting: bool,
    /// Collapse the whitespace right after the comment opener to one space.
    pub normalize_spacing: bool,
}

/// Validated, immutable style options for one formatting pass.
#[derive(Clone, Copy, Debug, PartialEq, Eq, Structural)]
pub struct Config {
    /// Number of spaces per indentation level when tabs are off; must be > 0.
    pub indent_size: usize,
    /// Display width of a tab character; must be > 0.
    pub tab_width: usize,
    /// Indent with tab characters instead of spaces.
    pub use_tabs: bool,
    /// Maximum line length; 0 means unenforced.
    pub max_line_length: usize,
    /// Keep one blank separator line where the source had a run of blank lines.
    pub preserve_empty_lines: bool,
    /// Trailing-comma policy.
    pub trailing_commas: TrailingCommaStyle,
    /// Quote-style policy for string literals.
    pub quote_style: QuoteStyle,
    /// Spacing inside mustache delimiters.
    pub mustache_spacing: MustacheSpacing,
    /// Indentation policy for mustache section bodies.
    pub mustache_indent_style: MustacheIndentStyle,
    /// Comment re-emission policy.
    pub comment_handling: CommentHandling,
}

/// The error kinds a formatting call can report.
#[derive(Clone, Copy, Debug, PartialEq, Eq, Structural)]
pub enum FmtError {
    /// `indent_size` is zero.
    InvalidIndentSize,
    /// `tab_width` is zero.
    InvalidTabWidth,
    /// The source was rejected by the grammar and contains no mustache
    /// delimiter pair that would justify best-effort output.
    Parse,
}

impl FmtError {
    /// A short description of the error, for reporting at the edges.
    pub fn message(&self) -> (r: &'static str)
        ensures
            r@ == spec_message(*self),
    {
        match self {
            FmtError::InvalidIndentSize => "indent_size must be greater than 0",
            FmtError::InvalidTabWidth => "tab_width must be greater than 0",
            FmtError::Parse => "syntax error in source code",
        }
    }
}

/// The description `FmtError::message` returns for each error kind.
pub open spec fn spec_message(e: FmtError) -> Seq<char> {
    match e {
        FmtError::InvalidIndentSize => "indent_size must be greater than 0"@,
        FmtError::InvalidTabWidth => "tab_width must be greater than 0"@,
        FmtError::Parse => "syntax error in source code"@,
    }
}

/// The built-in default configuration: two-space indentation, everything
/// preserved, no extra spacing inside mustache delimiters, Block sections.
pub open spec fn spec_default_config() -> Config {
    Config {
        indent_size: 2,
        tab_width: 2,
        use_tabs: false,
        max_line_length: 0,
        preserve_empty_lines: true,
        trailing_commas: TrailingCommaStyle::Preserve,
        quote_style: QuoteStyle::Preserve,
        mustache_spacing: MustacheSpacing {
            after_open: false,
            before_close: false,
            around_operators: false,
        },
        mustache_indent_style: MustacheIndentStyle::Block,
        comment_handling: CommentHandling {
            preserve_formatting: true,
            normalize_spacing: false,
        },
    }
}

/// A configuration is valid when both width options are positive.
pub open spec fn spec_valid(c: Config) -> bool {
    c.indent_size > 0 && c.tab_width > 0
}

/// A sequence of `k` space characters.
pub open spec fn spec_spaces(k: nat) -> Seq<char>
    decreases k,
{
    if k == 0 {
        Seq::empty()
    } else {
        spec_spaces((k - 1) as nat).push(' ')
    }
}

/// The single indentation unit a configuration prescribes: one tab, or
/// `indent_size` spaces.
pub open spec fn spec_indent_unit(c: Config) -> Seq<char> {
    if c.use_tabs {
        seq!['\t']
    } else {
        spec_spaces(c.indent_size as nat)
    }
}

impl Default for Config {
    /// The built-in defaults.
    fn default() -> (r: Config)
        ensures
            r == spec_default_config(),
    {
        Config {
            indent_size: 2,
            tab_width: 2,
            use_tabs: false,
            max_line_length: 0,
            preserve_empty_lines: true,
            trailing_commas: TrailingCommaStyle::Preserve,
            quote_style: QuoteStyle::Preserve,
            mustache_spacing: MustacheSpacing {
                after_open: false,
                before_close: false,
                around_operators: false,
            },
            mustache_indent_style: MustacheIndentStyle::Block,
            comment_handling: CommentHandling {
                preserve_formatting: true,
                normalize_spacing: false,
            },
        }
    }
}

impl Default for TrailingCommaStyle {
    fn default() -> (r: TrailingCommaStyle)
        ensures
            r == TrailingCommaStyle::Preserve,
    {
        TrailingCommaStyle::Preserve
    }
}

impl Default for QuoteStyle {
    fn default() -> (r: QuoteStyle)
        ensures
            r == QuoteStyle::Preserve,
    {
        QuoteStyle::Preserve
    }
}

impl Default for MustacheSpacing {
    fn default() -> (r: MustacheSpacing)
        ensures
            r == (MustacheSpacing { after_open: false, before_close: false, around_operators: false }),
    {
        MustacheSpacing { after_open: false, before_close: false, around_operators: false }
    }
}

impl Default for MustacheIndentStyle {
    fn default() -> (r: MustacheIndentStyle)
        ensures
            r == MustacheIndentStyle::Block,
    {
        MustacheIndentStyle::Block
    }
}

impl Default for CommentHandling {
    fn default() -> (r: CommentHandling)
        ensures
            r == (CommentHandling { preserve_formatting: true, normalize_spacing: false }),
    {
        CommentHandling { preserve_formatting: true, normalize_spacing: false }
    }
}

impl Config {
    /// Checks the width options; reports which one is zero, indent size first.
    pub fn validate(&self) -> (r: Result<(), FmtError>)
        ensures
            r is Ok <==> spec_valid(*self),
            self.indent_size == 0 ==> r == Result::<(), FmtError>::Err(FmtError::InvalidIndentSize),
            self.indent_size > 0 && self.tab_width == 0 ==> r == Result::<(), FmtError>::Err(
                FmtError::InvalidTabWidth,
            ),
    {
        if self.indent_size == 0 {
            Err(FmtError::InvalidIndentSize)
        } else if self.tab_width == 0 {
            Err(FmtError::InvalidTabWidth)
        } else {
            Ok(())
        }
    }

    /// One indentation unit as text: a tab, or `indent_size` spaces.
    pub fn indent_string(&self) -> (r: String)
        ensures
            r@ == spec_indent_unit(*self),
    {
        let mut v: Vec<char> = Vec::new();
        if self.use_tabs {
            v.push('\t');
            proof {
                assert(v@ =~= seq!['\t']);
            }
        } else {
            let mut i: usize = 0;
            while i < self.indent_size
                invariant
                    i <= self.indent_size,
                    v@ == spec_spaces(i as nat),
                decreases self.indent_size - i,
            {
                v.push(' ');
                i = i + 1;
            }
        }
        chars_to_string(&v)
    }
}

/// Relies on `String::from_iter` over `core::str::Chars`: collecting a
/// vector of characters yields the string spelling exactly those characters.
#[verifier::external_body]
pub fn chars_to_string(v: &Vec<char>) -> (r: String)
    ensures
        r@ == v@,
{
    v.iter().collect()
}

} // verus!
