//! Command-line flags.
//!
//! Each flag takes the word after it as its value. Words that are no flag are
//! passed over.

use vstd::prelude::*;

use crate::text;
use crate::text::same_text;

verus! {

/// The values of the flags.
#[derive(Debug)]
pub struct Args {
    /// A levelset file, or a directory of them, to play in place of the
    /// built-in levels.
    pub levelset: Option<String>,
    /// A directory of sprite images.
    pub assets: Option<String>,
    /// The renderer to draw with.
    pub renderer: Option<String>,
}

/// The contents of an [`Args`].
#[verifier::ext_equal]
pub struct ArgsView {
    pub levelset: Option<Seq<char>>,
    pub assets: Option<Seq<char>>,
    pub renderer: Option<Seq<char>>,
}

/// The characters of an optional text.
pub open spec fn text_of(value: Option<String>) -> Option<Seq<char>> {
    match value {
        Some(value) => Some(value@),
        None => None,
    }
}

impl View for Args {
    type V = ArgsView;

    open spec fn view(&self) -> ArgsView {
        ArgsView {
            levelset: text_of(self.levelset),
            assets: text_of(self.assets),
            renderer: text_of(self.renderer),
        }
    }
}

/// No flags at all.
pub open spec fn no_args() -> ArgsView {
    ArgsView { levelset: None, assets: None, renderer: None }
}

impl Default for Args {
    fn default() -> (args: Self)
        ensures
            args@ == no_args(),
    {
        Args { levelset: None, assets: None, renderer: None }
    }
}

/// Whether a word is a flag.
pub open spec fn is_flag(word: Seq<char>) -> bool {
    word == "--levelset"@ || word == "--assets"@ || word == "--renderer"@
}

/// The flags with one of them set, or unset where its value is missing.
pub open spec fn with_flag(args: ArgsView, flag: Seq<char>, value: Option<Seq<char>>) -> ArgsView {
    if flag == "--levelset"@ {
        ArgsView { levelset: value, ..args }
    } else if flag == "--assets"@ {
        ArgsView { assets: value, ..args }
    } else if flag == "--renderer"@ {
        ArgsView { renderer: value, ..args }
    } else {
        args
    }
}

/// The flags after reading some words. The word after a flag is its value, even
/// if it looks like a flag.
pub open spec fn args_after(words: Seq<Seq<char>>, args: ArgsView) -> ArgsView
    decreases words.len(),
{
    if words.len() == 0 {
        args
    } else if !is_flag(words[0]) {
        args_after(words.skip(1), args)
    } else if words.len() == 1 {
        with_flag(args, words[0], None)
    } else {
        args_after(words.skip(2), with_flag(args, words[0], Some(words[1])))
    }
}

/// The flags that a list of words sets.
pub open spec fn parsed(words: Seq<Seq<char>>) -> ArgsView {
    args_after(words, no_args())
}

/// Reads the flags from the words of a command line, without the program's
/// name.
pub fn parse_args(words: &Vec<String>) -> (args: Args)
    ensures
        args@ == parsed(text::texts(words@)),
{
    let ghost read = text::texts(words@);
    let mut args = Args::default();
    let mut at: usize = 0;
    assert(read.skip(0) == read);
    while at < words.len()
        invariant
            at <= words@.len(),
            read == text::texts(words@),
            args_after(read.skip(at as int), args@) == parsed(read),
        decreases words@.len() - at,
    {
        let flag = words[at].as_str();
        let value: Option<String> = if words.len() - at > 1 {
            Some(words[at + 1].clone())
        } else {
            None
        };
        let ghost before = args@;
        let ghost rest = read.skip(at as int);
        assert(rest[0] == flag@);
        assert(rest.len() > 1 ==> rest[1] == words@[at + 1]@);
        assert(rest.skip(1) == read.skip(at + 1));
        assert(rest.len() > 1 ==> rest.skip(2) == read.skip(at + 2));
        let known = if same_text(flag, "--levelset") {
            args.levelset = value;
            true
        } else if same_text(flag, "--assets") {
            args.assets = value;
            true
        } else if same_text(flag, "--renderer") {
            args.renderer = value;
            true
        } else {
            false
        };
        assert(known == is_flag(flag@));
        if !known {
            at = at + 1;
        } else if words.len() - at > 1 {
            assert(args@ == with_flag(before, flag@, Some(rest[1])));
            at = at + 2;
        } else {
            assert(args@ == with_flag(before, flag@, None));
            at = at + 1;
        }
    }
    args
}

/// Whether some flags ask for the view in depth.
pub open spec fn asks_for_3d(args: ArgsView) -> bool {
    args.renderer == Some("3d"@)
}

impl Args {
    /// Whether the view in depth is asked for.
    pub fn wants_3d(&self) -> (wanted: bool)
        ensures
            wanted == asks_for_3d(self@),
    {
        match &self.renderer {
            Some(name) => same_text(name.as_str(), "3d"),
            None => false,
        }
    }
}

/// Words that are no flag change nothing.
pub proof fn law_other_words_are_ignored(words: Seq<Seq<char>>, args: ArgsView)
    requires
        forall|i: int| 0 <= i < words.len() ==> !is_flag(#[trigger] words[i]),
    ensures
        args_after(words, args) == args,
    decreases words.len(),
{
    if words.len() > 0 {
        assert forall|i: int| 0 <= i < words.skip(1).len() implies !is_flag(
            #[trigger] words.skip(1)[i],
        ) by {
            assert(words.skip(1)[i] == words[i + 1]);
        }
        law_other_words_are_ignored(words.skip(1), args);
    }
}

/// A flag takes the word after it, whatever that is, as its value and leaves the
/// other flags alone; reading goes on behind the value.
pub proof fn law_flags_take_the_next_word(
    value: Seq<char>,
    rest: Seq<Seq<char>>,
    args: ArgsView,
)
    ensures
        args_after(seq!["--levelset"@, value] + rest, args) == args_after(
            rest,
            ArgsView {
                levelset: Some(value),
                assets: args.assets,
                renderer: args.renderer,
            },
        ),
        args_after(seq!["--assets"@, value] + rest, args) == args_after(
            rest,
            ArgsView {
                levelset: args.levelset,
                assets: Some(value),
                renderer: args.renderer,
            },
        ),
        args_after(seq!["--renderer"@, value] + rest, args) == args_after(
            rest,
            ArgsView {
                levelset: args.levelset,
                assets: args.assets,
                renderer: Some(value),
            },
        ),
{
    lemma_flags_differ();
    assert((seq!["--levelset"@, value] + rest).skip(2) == rest);
    assert((seq!["--assets"@, value] + rest).skip(2) == rest);
    assert((seq!["--renderer"@, value] + rest).skip(2) == rest);
}

proof fn lemma_flags_differ()
    ensures
        "--levelset"@ != "--assets"@,
        "--levelset"@ != "--renderer"@,
        "--assets"@ != "--renderer"@,
{
    reveal_strlit("--levelset");
    reveal_strlit("--assets");
    reveal_strlit("--renderer");
    assert("--levelset"@[2] == 'l');
    assert("--assets"@[2] == 'a');
    assert("--renderer"@[2] == 'r');
}

/// A flag at the very end has no value, not even one that it had before.
pub proof fn law_last_flags_have_no_value(args: ArgsView)
    ensures
        args_after(seq!["--levelset"@], args) == (ArgsView { levelset: None, ..args }),
        args_after(seq!["--assets"@], args) == (ArgsView { assets: None, ..args }),
        args_after(seq!["--renderer"@], args) == (ArgsView { renderer: None, ..args }),
{
    lemma_flags_differ();
}

/// A word that is none of the three flags is passed over, and what follows is
/// read as if it were not there.
pub proof fn law_other_words_are_passed_over(
    word: Seq<char>,
    rest: Seq<Seq<char>>,
    args: ArgsView,
)
    requires
        word != "--levelset"@,
        word != "--assets"@,
        word != "--renderer"@,
    ensures
        args_after(seq![word] + rest, args) == args_after(rest, args),
{
    assert((seq![word] + rest).skip(1) == rest);
}

/// Without a word no flag is set.
pub proof fn law_no_words_set_no_flag(args: ArgsView)
    ensures
        args_after(Seq::<Seq<char>>::empty(), args) == args,
        parsed(Seq::<Seq<char>>::empty()).levelset is None,
        parsed(Seq::<Seq<char>>::empty()).assets is None,
        parsed(Seq::<Seq<char>>::empty()).renderer is None,
{
}

/// Reading a command line starts with no flag set.
pub proof fn law_command_lines_start_afresh(words: Seq<Seq<char>>)
    ensures
        parsed(words) == args_after(
            words,
            ArgsView { levelset: None, assets: None, renderer: None },
        ),
{
}

/// The view of the flags shows the value of each.
pub proof fn law_views_show_the_flags(args: Args)
    ensures
        args@.levelset == match args.levelset {
            Some(value) => Some(value@),
            None => None::<Seq<char>>,
        },
        args@.assets == match args.assets {
            Some(value) => Some(value@),
            None => None::<Seq<char>>,
        },
        args@.renderer == match args.renderer {
            Some(value) => Some(value@),
            None => None::<Seq<char>>,
        },
{
}

/// The view in depth is asked for by the renderer's name alone: by those two
/// characters and no others, whatever the other flags are.
pub proof fn law_the_view_in_depth_is_asked_for_by_name(args: ArgsView, name: Seq<char>)
    ensures
        asks_for_3d(ArgsView { renderer: Some(name), ..args }) <==> name == seq!['3', 'd'],
        !asks_for_3d(ArgsView { renderer: None, ..args }),
{
    reveal_strlit("3d");
    assert("3d"@ == seq!['3', 'd']);
}

} // verus!
