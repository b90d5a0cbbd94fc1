//! The driver: wires configuration, parser and node formatter.
//!
//! A parse-rejected document is a hard failure only when the source contains
//! no `{{ ... }}` delimiter pair anywhere; with such a pair present the tree
//! is rendered best-effort, rejected regions verbatim.

use vstd::prelude::*;

use crate::config::{spec_valid, Config, FmtError};
use crate::parse::{parse_document, spec_parse_document};
use crate::render::{render_document, spec_render_document};
use crate::tree::{flat, model};

verus! {

/// A `{{` delimiter opens at position `i` of `s`.
pub open spec fn spec_open_at(s: Seq<char>, i: int) -> bool {
    0 <= i && i + 1 < s.len() && s[i] == '{' && s[i + 1] == '{'
}

/// A `}}` delimiter closes at position `j` of `s`.
pub open spec fn spec_close_at(s: Seq<char>, j: int) -> bool {
    0 <= j && j + 1 < s.len() && s[j] == '}' && s[j + 1] == '}'
}

/// The source holds a mustache delimiter pair: a `{{` followed, past it, by
/// a `}}`.
pub open spec fn spec_has_mustache_pair(s: Seq<char>) -> bool {
    exists|i: int, j: int| spec_open_at(s, i) && spec_close_at(s, j) && i + 2 <= j
}

/// Whether `src` holds a mustache delimiter pair.
fn has_mustache_pair(src: &Vec<char>) -> (r: bool)
    ensures
        r == spec_has_mustache_pair(src@),
{
    proof {
        vstd::std_specs::vec::axiom_spec_len(src);
    }
    let mut i: usize = 0;
    while i < src.len() && i + 1 < src.len() && !(src[i] == '{' && src[i + 1] == '{')
        invariant
            i <= src@.len(),
            forall|k: int| 0 <= k < i ==> !spec_open_at(src@, k),
        decreases src@.len() - i,
    {
        i = i + 1;
    }
    if !(i < src.len() && i + 1 < src.len()) {
        proof {
            assert forall|k: int, j: int| !(spec_open_at(src@, k) && spec_close_at(src@, j) && k + 2
                <= j) by {
                if spec_open_at(src@, k) {
                    assert(k >= i);
                }
            }
        }
        return false;
    }
    let mut j: usize = i + 2;
    while j < src.len() && j + 1 < src.len() && !(src[j] == '}' && src[j + 1] == '}')
        invariant
            i + 2 <= j <= src@.len(),
            forall|k: int| i + 2 <= k < j ==> !spec_close_at(src@, k),
            forall|k: int| 0 <= k < i ==> !spec_open_at(src@, k),
            spec_open_at(src@, i as int),
        decreases src@.len() - j,
    {
        j = j + 1;
    }
    if j < src.len() && j + 1 < src.len() {
        proof {
            assert(spec_close_at(src@, j as int));
            assert(spec_open_at(src@, i as int) && spec_close_at(src@, j as int) && i + 2 <= j);
        }
        true
    } else {
        proof {
            assert forall|a: int, b: int| !(spec_open_at(src@, a) && spec_close_at(src@, b) && a + 2
                <= b) by {
                if spec_open_at(src@, a) && spec_close_at(src@, b) {
                    assert(a >= i);
                    if a + 2 <= b {
                        assert(b >= i + 2);
                        assert(b < src@.len() - 1);
                    }
                }
            }
        }
        false
    }
}

/// Relies on `str::chars` (collected): the characters of the string, in
/// order.
#[verifier::external_body]
fn str_to_chars(s: &str) -> (r: Vec<char>)
    ensures
        r@ == s@,
{
    s.chars().collect()
}

/// The text formatting `source` under `c` produces when it succeeds: the
/// parsed document rendered at depth zero.
pub open spec fn spec_format(source: Seq<char>, c: Config) -> Seq<char> {
    spec_render_document(spec_parse_document(source), c)
}

/// Formatting fails exactly when the parse rejects a region and the source
/// holds no mustache delimiter pair to justify best-effort output.
pub open spec fn spec_format_fails(source: Seq<char>) -> bool {
    spec_parse_document(source).has_error && !spec_has_mustache_pair(source)
}

/// A formatter instance: a validated style configuration, reusable across
/// sequential calls.
pub struct MustacheJson5Formatter {
    config: Config,
}

impl MustacheJson5Formatter {
    /// The configuration this formatter was built with.
    pub closed spec fn spec_config(&self) -> Config {
        self.config
    }

    /// A formatter over `config`; fails exactly when the configuration is
    /// invalid, indent size reported first.
    pub fn new(config: Config) -> (r: Result<MustacheJson5Formatter, FmtError>)
        ensures
            r is Ok <==> spec_valid(config),
            r matches Ok(f) ==> f.spec_config() == config,
            config.indent_size == 0 ==> r == Result::<MustacheJson5Formatter, FmtError>::Err(
                FmtError::InvalidIndentSize,
            ),
            config.indent_size > 0 && config.tab_width == 0 ==> r == Result::<
                MustacheJson5Formatter,
                FmtError,
            >::Err(FmtError::InvalidTabWidth),
    {
        match config.validate() {
            Ok(()) => Ok(MustacheJson5Formatter { config }),
            Err(e) => Err(e),
        }
    }

    /// Formats `source`: parses it and renders the tree at depth zero under
    /// this formatter's configuration. Fails exactly when the parse rejects
    /// a region and the source holds no mustache delimiter pair; with such a
    /// pair present, rejected regions render verbatim.
    pub fn format(&mut self, source: &str) -> (r: Result<String, FmtError>)
        ensures
            *final(self) == *old(self),
            r is Ok <==> !spec_format_fails(source@),
            r matches Ok(out) ==> out@ == spec_format(source@, old(self).spec_config()),
            r matches Err(e) ==> e == FmtError::Parse,
    {
        let chars = str_to_chars(source);
        let root = parse_document(&chars);
        proof {
            assert(model(root) == spec_parse_document(source@));
            assert(flat(model(root)) == source@);
        }
        if root.has_error && !has_mustache_pair(&chars) {
            Err(FmtError::Parse)
        } else {
            let out = render_document(&root, &self.config);
            Ok(out)
        }
    }
}

/// Formats `input` under the built-in default configuration.
pub fn format_string(input: &str) -> (r: Result<String, FmtError>)
    ensures
        r is Ok <==> !spec_format_fails(input@),
        r matches Ok(out) ==> out@ == spec_format(input@, crate::config::spec_default_config()),
        r matches Err(e) ==> e == FmtError::Parse,
{
    format_string_with_config(input, Config::default())
}

/// Formats `input` under `config`; fails on an invalid configuration before
/// looking at the input.
pub fn format_string_with_config(input: &str, config: Config) -> (r: Result<String, FmtError>)
    ensures
        r is Ok <==> spec_valid(config) && !spec_format_fails(input@),
        r matches Ok(out) ==> out@ == spec_format(input@, config),
        spec_valid(config) ==> (r matches Err(e) ==> e == FmtError::Parse),
        config.indent_size == 0 ==> r == Result::<String, FmtError>::Err(
            FmtError::InvalidIndentSize,
        ),
        config.indent_size > 0 && config.tab_width == 0 ==> r == Result::<String, FmtError>::Err(
            FmtError::InvalidTabWidth,
        ),
{
    match MustacheJson5Formatter::new(config) {
        Ok(mut f) => f.format(input),
        Err(e) => Err(e),
    }
}

/// Whether `input` is already formatted under `config`: formatting it
/// reproduces it exactly.
pub fn is_formatted(input: &str, config: &Config) -> (r: Result<bool, FmtError>)
    ensures
        r is Ok <==> spec_valid(*config) && !spec_format_fails(input@),
        r matches Ok(b) ==> b == (spec_format(input@, *config) == input@),
        spec_valid(*config) ==> (r matches Err(e) ==> e == FmtError::Parse),
{
    match format_string_with_config(input, *config) {
        Ok(out) => {
            let orig = String::from_str(input);
            Ok(orig == out)
        },
        Err(e) => Err(e),
    }
}

} // verus!
