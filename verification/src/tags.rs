//! The directives of a code block's info string.
//!
//! The info string is a list of tokens with commas between them. The tokens
//! that begin with `bashtestmd:` set how the block's last command is run and
//! checked.

use vstd::prelude::*;
use crate::command::opt_view;
use crate::document::CodeBlock;
use crate::number::{parse_decimal, parse_i32};
use crate::text::{
    chars_of, has_prefix, same_chars, skip_chars, split, split_chars, string_of, string_views,
    views,
};

verus! {

/// The token that starts the command in the background.
pub const LONG_RUNNING_TAG: &'static str = "bashtestmd:long-running";

/// The token that has the command's output compared.
pub const COMPARE_OUTPUT_TAG: &'static str = "bashtestmd:compare-output";

/// The token that leaves the exit status unchecked.
pub const EXIT_CODE_IGNORE_TAG: &'static str = "bashtestmd:exit-code-ignore";

/// The token that makes the lines behind a command continue it.
pub const RAW_TAG: &'static str = "bashtestmd:raw";

/// What a token that sets the required exit status begins with.
pub const EXIT_CODE_PREFIX: &'static str = "bashtestmd:exit-code=";

/// What a token that sets the text to wait for begins with.
pub const WAIT_UNTIL_PREFIX: &'static str = "bashtestmd:wait-until=";

/// What one token of an info string asks for.
#[derive(Debug, Clone, Copy, PartialEq, Eq)]
pub enum Directive {
    /// Start the command in the background.
    LongRunning,
    /// Compare the command's output with the block's.
    CompareOutput,
    /// Leave the exit status unchecked.
    ExitCodeIgnore,
    /// Read the block as one command of several lines.
    Raw,
    /// Require the exit status written behind the `=`.
    ExitCode,
    /// Wait for the text written behind the `=`.
    WaitUntil,
    /// No directive: a language hint, the selector tag, or a mistake.
    Unknown,
}

/// What the token `token` asks for.
pub open spec fn directive_of(token: Seq<char>) -> Directive {
    if token == LONG_RUNNING_TAG@ {
        Directive::LongRunning
    } else if token == COMPARE_OUTPUT_TAG@ {
        Directive::CompareOutput
    } else if token == EXIT_CODE_IGNORE_TAG@ {
        Directive::ExitCodeIgnore
    } else if token == RAW_TAG@ {
        Directive::Raw
    } else if EXIT_CODE_PREFIX@.is_prefix_of(token) {
        Directive::ExitCode
    } else if WAIT_UNTIL_PREFIX@.is_prefix_of(token) {
        Directive::WaitUntil
    } else {
        Directive::Unknown
    }
}

/// What stands behind the `=` of a token that sets the exit status.
pub open spec fn exit_code_text(token: Seq<char>) -> Seq<char> {
    token.skip(EXIT_CODE_PREFIX@.len() as int)
}

/// What stands behind the first `=` of a token that sets the text to wait
/// for.
pub open spec fn wait_until_text(token: Seq<char>) -> Seq<char> {
    token.skip(WAIT_UNTIL_PREFIX@.len() as int)
}

/// Whether `token` sets an exit status that is no numeral of a 32-bit
/// integer.
pub open spec fn is_malformed(token: Seq<char>) -> bool {
    directive_of(token) is ExitCode && parse_i32(exit_code_text(token)) is None
}

/// What a [`CodeBlockTags`] holds, as plain values.
pub struct CodeBlockTagsView {
    pub long_running: bool,
    pub compare_output: bool,
    pub exit_code: Option<i32>,
    pub wait_until: Option<Seq<char>>,
    pub raw: bool,
}

/// Whether `tags` can be the tags of a block: a raw block has no output to
/// compare, so the two do not go together.
pub open spec fn well_formed(tags: CodeBlockTagsView) -> bool {
    !(tags.raw && tags.compare_output)
}

/// The tags of a block without directives: a foreground command that must
/// exit with status 0, and whose output is not compared.
pub open spec fn default_tags() -> CodeBlockTagsView {
    CodeBlockTagsView {
        long_running: false,
        compare_output: false,
        exit_code: Some(0i32),
        wait_until: None,
        raw: false,
    }
}

/// `tags` after the token `token`. A later token for the exit status or the
/// text to wait for replaces an earlier one.
pub open spec fn with_token(tags: CodeBlockTagsView, token: Seq<char>) -> CodeBlockTagsView {
    match directive_of(token) {
        Directive::LongRunning => CodeBlockTagsView { long_running: true, ..tags },
        Directive::CompareOutput => CodeBlockTagsView { compare_output: true, ..tags },
        Directive::ExitCodeIgnore => CodeBlockTagsView { exit_code: None, ..tags },
        Directive::Raw => CodeBlockTagsView { raw: true, ..tags },
        Directive::ExitCode => CodeBlockTagsView {
            exit_code: parse_i32(exit_code_text(token)),
            ..tags
        },
        Directive::WaitUntil => CodeBlockTagsView {
            wait_until: Some(wait_until_text(token)),
            ..tags
        },
        Directive::Unknown => tags,
    }
}

/// The tags that the tokens `tokens` set, read from first to last.
pub open spec fn tags_of(tokens: Seq<Seq<char>>) -> CodeBlockTagsView
    decreases tokens.len(),
{
    if tokens.len() == 0 {
        default_tags()
    } else {
        with_token(tags_of(tokens.drop_last()), tokens.last())
    }
}

/// The first token of `tokens` that sets a malformed exit status, if there is
/// one.
pub open spec fn first_malformed(tokens: Seq<Seq<char>>) -> Option<Seq<char>>
    decreases tokens.len(),
{
    if tokens.len() == 0 {
        None
    } else {
        match first_malformed(tokens.drop_last()) {
            Some(token) => Some(token),
            None => if is_malformed(tokens.last()) {
                Some(tokens.last())
            } else {
                None
            },
        }
    }
}

/// Why an info string was rejected, as plain values.
pub enum TagErrorView {
    MutuallyExclusive,
    MalformedExitCode(Seq<char>),
}

/// Why an info string was rejected.
#[derive(Debug, Clone, PartialEq, Eq)]
pub enum TagError {
    /// The block is tagged both `bashtestmd:raw` and
    /// `bashtestmd:compare-output`.
    MutuallyExclusive,
    /// The token held here sets an exit status that is no numeral of a
    /// 32-bit integer.
    MalformedExitCode(String),
}

impl View for TagError {
    type V = TagErrorView;

    open spec fn view(&self) -> TagErrorView {
        match *self {
            TagError::MutuallyExclusive => TagErrorView::MutuallyExclusive,
            TagError::MalformedExitCode(token) => TagErrorView::MalformedExitCode(token@),
        }
    }
}

/// What the user is told about the error `e`.
pub open spec fn error_message(e: TagErrorView) -> Seq<char> {
    match e {
        TagErrorView::MutuallyExclusive =>
            "Tags `bashtestmd:raw` and `bashtestmd:compare-output` are mutually exclusive"@,
        TagErrorView::MalformedExitCode(token) => "Malformed exit code in tag: "@ + token,
    }
}

impl TagError {
    /// The text of this error, without a newline at its end.
    pub fn message(&self) -> (r: String)
        ensures
            r@ == error_message(self@),
    {
        match self {
            TagError::MutuallyExclusive => {
                "Tags `bashtestmd:raw` and `bashtestmd:compare-output` are mutually exclusive"
                    .to_owned()
            },
            TagError::MalformedExitCode(token) => {
                let mut r = "Malformed exit code in tag: ".to_owned();
                r.append(token.as_str());
                r
            },
        }
    }
}

/// What reading the tokens `tokens` gives: the first malformed exit status
/// is an error; without one, `raw` together with `compare_output` is an
/// error; otherwise the tags that the tokens set.
pub open spec fn parsed_tags(tokens: Seq<Seq<char>>) -> Result<CodeBlockTagsView, TagErrorView> {
    match first_malformed(tokens) {
        Some(token) => Err(TagErrorView::MalformedExitCode(token)),
        None => if tags_of(tokens).raw && tags_of(tokens).compare_output {
            Err(TagErrorView::MutuallyExclusive)
        } else {
            Ok(tags_of(tokens))
        },
    }
}

/// The info string of a block; empty where the block has none.
pub open spec fn info_string(lang: Option<Seq<char>>) -> Seq<char> {
    match lang {
        Some(text) => text,
        None => Seq::<char>::empty(),
    }
}

/// The tokens of a block's info string.
pub open spec fn info_tokens(lang: Option<Seq<char>>) -> Seq<Seq<char>> {
    split(info_string(lang), ',')
}

/// The tokens of `tokens` that are reported as unknown to a user who selects
/// blocks by `only_tag`: those that are no directive, but for the first token
/// and for tokens equal to `only_tag`. Reading stops at a malformed exit
/// status, so nothing behind one is reported.
pub open spec fn unknown_among(tokens: Seq<Seq<char>>, only_tag: Seq<char>) -> Seq<Seq<char>>
    decreases tokens.len(),
{
    if tokens.len() == 0 {
        Seq::<Seq<char>>::empty()
    } else {
        let before = unknown_among(tokens.drop_last(), only_tag);
        let token = tokens.last();
        if first_malformed(tokens.drop_last()) is None && tokens.len() > 1 && directive_of(token)
            is Unknown && token != only_tag {
            before.push(token)
        } else {
            before
        }
    }
}

/// How the commands of one code block are run and checked.
#[derive(Debug, Clone, PartialEq, Eq)]
pub struct CodeBlockTags {
    /// Whether the command is started in the background.
    pub long_running: bool,
    /// Whether the command's output is compared with the block's.
    pub compare_output: bool,
    /// The exit status required of the command; `None` leaves it unchecked.
    pub exit_code: Option<i32>,
    /// The text to wait for in the output of a background command.
    pub wait_until: Option<String>,
    /// Whether the lines behind a command continue it.
    pub raw: bool,
}

impl View for CodeBlockTags {
    type V = CodeBlockTagsView;

    open spec fn view(&self) -> CodeBlockTagsView {
        CodeBlockTagsView {
            long_running: self.long_running,
            compare_output: self.compare_output,
            exit_code: self.exit_code,
            wait_until: opt_view(self.wait_until),
            raw: self.raw,
        }
    }
}

/// The view of what [`CodeBlockTags::parse`] returns.
pub open spec fn tag_result_view(r: Result<CodeBlockTags, TagError>) -> Result<
    CodeBlockTagsView,
    TagErrorView,
> {
    match r {
        Ok(tags) => Ok(tags@),
        Err(e) => Err(e@),
    }
}

/// A malformed exit status among the first tokens is the first one of all.
pub proof fn lemma_first_malformed_stays(tokens: Seq<Seq<char>>, n: int)
    requires
        0 <= n <= tokens.len(),
        first_malformed(tokens.take(n)) is Some,
    ensures
        first_malformed(tokens) == first_malformed(tokens.take(n)),
    decreases tokens.len() - n,
{
    if n < tokens.len() {
        assert(tokens.take(n + 1).drop_last() =~= tokens.take(n));
        lemma_first_malformed_stays(tokens, n + 1);
    } else {
        assert(tokens.take(n) =~= tokens);
    }
}

/// Behind a malformed exit status no token is reported as unknown.
pub proof fn lemma_unknown_among_stops(tokens: Seq<Seq<char>>, n: int, only_tag: Seq<char>)
    requires
        0 <= n <= tokens.len(),
        first_malformed(tokens.take(n)) is Some,
    ensures
        unknown_among(tokens, only_tag) == unknown_among(tokens.take(n), only_tag),
    decreases tokens.len() - n,
{
    if n < tokens.len() {
        assert(tokens.take(n + 1).drop_last() =~= tokens.take(n));
        lemma_first_malformed_stays(tokens.take(n + 1), n);
        lemma_unknown_among_stops(tokens, n + 1, only_tag);
    } else {
        assert(tokens.take(n) =~= tokens);
    }
}

/// The four directives without a value are four different tokens, and each
/// is read as itself.
pub proof fn lemma_plain_directives()
    ensures
        directive_of(LONG_RUNNING_TAG@) == Directive::LongRunning,
        directive_of(COMPARE_OUTPUT_TAG@) == Directive::CompareOutput,
        directive_of(EXIT_CODE_IGNORE_TAG@) == Directive::ExitCodeIgnore,
        directive_of(RAW_TAG@) == Directive::Raw,
{
    reveal_strlit("bashtestmd:long-running");
    reveal_strlit("bashtestmd:compare-output");
    reveal_strlit("bashtestmd:exit-code-ignore");
    reveal_strlit("bashtestmd:raw");
    // The four tokens differ in length.
    assert(LONG_RUNNING_TAG@.len() == 23);
    assert(COMPARE_OUTPUT_TAG@.len() == 25);
    assert(EXIT_CODE_IGNORE_TAG@.len() == 27);
    assert(RAW_TAG@.len() == 14);
}

/// A directive without a value is never taken back: a block is raw,
/// compared or in the background exactly if the token that says so is among
/// its tokens.
pub proof fn lemma_flags_follow_tokens(tokens: Seq<Seq<char>>)
    ensures
        tags_of(tokens).raw <==> tokens.contains(RAW_TAG@),
        tags_of(tokens).compare_output <==> tokens.contains(COMPARE_OUTPUT_TAG@),
        tags_of(tokens).long_running <==> tokens.contains(LONG_RUNNING_TAG@),
    decreases tokens.len(),
{
    lemma_plain_directives();
    if tokens.len() > 0 {
        let shorter = tokens.drop_last();
        lemma_flags_follow_tokens(shorter);
        assert(tokens =~= shorter.push(tokens.last()));
    }
}

/// An info string that asks for a raw block and for a compared output is
/// always rejected.
pub proof fn lemma_raw_with_compare_output_is_rejected(tokens: Seq<Seq<char>>)
    requires
        tokens.contains(RAW_TAG@),
        tokens.contains(COMPARE_OUTPUT_TAG@),
    ensures
        parsed_tags(tokens) is Err,
{
    lemma_flags_follow_tokens(tokens);
}

/// The characters of a block's info string.
pub fn info_chars(code_block: &CodeBlock) -> (r: Vec<char>)
    ensures
        r@ == info_string(code_block@.lang),
{
    match &code_block.lang {
        Some(text) => chars_of(text.as_str()),
        None => Vec::new(),
    }
}

/// The words of the tag grammar, as characters.
struct Keywords {
    long_running: Vec<char>,
    compare_output: Vec<char>,
    exit_code_ignore: Vec<char>,
    raw: Vec<char>,
    exit_code: Vec<char>,
    wait_until: Vec<char>,
}

impl Keywords {
    /// Whether each field holds the word that it is named after.
    spec fn wf(&self) -> bool {
        &&& self.long_running@ == LONG_RUNNING_TAG@
        &&& self.compare_output@ == COMPARE_OUTPUT_TAG@
        &&& self.exit_code_ignore@ == EXIT_CODE_IGNORE_TAG@
        &&& self.raw@ == RAW_TAG@
        &&& self.exit_code@ == EXIT_CODE_PREFIX@
        &&& self.wait_until@ == WAIT_UNTIL_PREFIX@
    }

    fn new() -> (k: Keywords)
        ensures
            k.wf(),
    {
        Keywords {
            long_running: chars_of(LONG_RUNNING_TAG),
            compare_output: chars_of(COMPARE_OUTPUT_TAG),
            exit_code_ignore: chars_of(EXIT_CODE_IGNORE_TAG),
            raw: chars_of(RAW_TAG),
            exit_code: chars_of(EXIT_CODE_PREFIX),
            wait_until: chars_of(WAIT_UNTIL_PREFIX),
        }
    }

    /// What the token `token` asks for.
    fn directive(&self, token: &Vec<char>) -> (d: Directive)
        requires
            self.wf(),
        ensures
            d == directive_of(token@),
    {
        if same_chars(token, &self.long_running) {
            Directive::LongRunning
        } else if same_chars(token, &self.compare_output) {
            Directive::CompareOutput
        } else if same_chars(token, &self.exit_code_ignore) {
            Directive::ExitCodeIgnore
        } else if same_chars(token, &self.raw) {
            Directive::Raw
        } else if has_prefix(token, &self.exit_code) {
            Directive::ExitCode
        } else if has_prefix(token, &self.wait_until) {
            Directive::WaitUntil
        } else {
            Directive::Unknown
        }
    }

    /// The exit status that `token` sets, if it is well formed.
    fn exit_code_of(&self, token: &Vec<char>) -> (r: Option<i32>)
        requires
            self.wf(),
            directive_of(token@) is ExitCode,
        ensures
            r == parse_i32(exit_code_text(token@)),
    {
        let text = skip_chars(token, self.exit_code.len());
        parse_decimal(&text)
    }

    /// The text to wait for that `token` sets.
    fn wait_until_of(&self, token: &Vec<char>) -> (r: String)
        requires
            self.wf(),
            directive_of(token@) is WaitUntil,
        ensures
            r@ == wait_until_text(token@),
    {
        let text = skip_chars(token, self.wait_until.len());
        string_of(&text)
    }
}

impl CodeBlockTags {
    /// Reads the directives of `code_block`'s info string.
    #[verifier::loop_isolation(false)]
    pub fn parse(code_block: &CodeBlock) -> (r: Result<CodeBlockTags, TagError>)
        ensures
            tag_result_view(r) == parsed_tags(info_tokens(code_block@.lang)),
            r matches Ok(tags) ==> well_formed(tags@),
    {
        let info = info_chars(code_block);
        let tokens = split_chars(&info, ',');
        let keywords = Keywords::new();
        let ghost all = views(tokens@);
        let mut tags = CodeBlockTags {
            long_running: false,
            compare_output: false,
            exit_code: Some(0),
            wait_until: None,
            raw: false,
        };
        let mut i: usize = 0;
        while i < tokens.len()
            invariant
                i <= tokens.len(),
                first_malformed(all.take(i as int)) is None,
                tags@ == tags_of(all.take(i as int)),
            decreases tokens.len() - i,
        {
            let token = &tokens[i];
            proof {
                assert(all.take(i + 1).drop_last() =~= all.take(i as int));
            }
            match keywords.directive(token) {
                Directive::LongRunning => {
                    tags.long_running = true;
                },
                Directive::CompareOutput => {
                    tags.compare_output = true;
                },
                Directive::ExitCodeIgnore => {
                    tags.exit_code = None;
                },
                Directive::Raw => {
                    tags.raw = true;
                },
                Directive::ExitCode => {
                    match keywords.exit_code_of(token) {
                        Some(n) => {
                            tags.exit_code = Some(n);
                        },
                        None => {
                            proof {
                                lemma_first_malformed_stays(all, i + 1);
                            }
                            return Err(TagError::MalformedExitCode(string_of(token)));
                        },
                    }
                },
                Directive::WaitUntil => {
                    tags.wait_until = Some(keywords.wait_until_of(token));
                },
                Directive::Unknown => {},
            }
            i += 1;
        }
        proof {
            assert(all.take(i as int) =~= all);
        }
        if tags.raw && tags.compare_output {
            Err(TagError::MutuallyExclusive)
        } else {
            Ok(tags)
        }
    }

    /// The tokens of `code_block`'s info string to warn about, for a user who
    /// selects blocks by `only_tag`.
    #[verifier::loop_isolation(false)]
    pub fn unknown_tokens(code_block: &CodeBlock, only_tag: &str) -> (r: Vec<String>)
        ensures
            string_views(r@) == unknown_among(info_tokens(code_block@.lang), only_tag@),
    {
        let info = info_chars(code_block);
        let tokens = split_chars(&info, ',');
        let keywords = Keywords::new();
        let selector = chars_of(only_tag);
        let ghost all = views(tokens@);
        let mut unknown: Vec<String> = Vec::new();
        let mut i: usize = 0;
        while i < tokens.len()
            invariant
                i <= tokens.len(),
                first_malformed(all.take(i as int)) is None,
                string_views(unknown@) == unknown_among(all.take(i as int), only_tag@),
            decreases tokens.len() - i,
        {
            let token = &tokens[i];
            proof {
                assert(all.take(i + 1).drop_last() =~= all.take(i as int));
            }
            match keywords.directive(token) {
                Directive::ExitCode => {
                    if keywords.exit_code_of(token).is_none() {
                        proof {
                            lemma_unknown_among_stops(all, i + 1, only_tag@);
                        }
                        return unknown;
                    }
                },
                Directive::Unknown => {
                    if i != 0 && !same_chars(token, &selector) {
                        unknown.push(string_of(token));
                    }
                },
                _ => {},
            }
            i += 1;
        }
        proof {
            assert(all.take(i as int) =~= all);
        }
        unknown
    }
}

} // verus!
