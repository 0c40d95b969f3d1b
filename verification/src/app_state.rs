//! The consumer's side: the state that a front end keeps about its roots,
//! its ignore patterns and the directories found so far, and how that state
//! reacts to a refresh, to the crawl's messages and to edits.

use vstd::prelude::*;
use crate::matcher::{chars_of, contains_chars, is_substring, texts};
use crate::message::{AppMessage, MessageView};
use crate::protocol::{start, wf};
use crate::session::CrawlSession;
use crate::text::{
    decimal, decimal_text, lowercased, repeat_text, repeated, to_lowercase, trim, trimmed,
};

verus! {

/// What the front end holds. Every combination of values is a state.
pub struct MyApp {
    /// The roots to crawl, in the order in which they are crawled.
    pub root_dirs: Vec<String>,
    /// The text of the search box.
    pub search_text: String,
    /// The directories reported since the last refresh, in order of arrival.
    pub subdirs: Vec<String>,
    /// The last search: its needle and the directories that matched.
    pub search_results: Option<(String, Vec<String>)>,
    /// True from a refresh until the crawl's completion signal arrives.
    pub indexing_in_progress: bool,
    /// The ignore patterns that the next crawl will use.
    pub ignore_patterns: Vec<String>,
    /// The text of the box for a new ignore pattern.
    pub new_pattern_input: String,
}

/// The state of the front end as plain texts.
#[verifier::ext_equal]
pub struct AppView {
    pub root_dirs: Seq<Seq<char>>,
    pub search_text: Seq<char>,
    pub subdirs: Seq<Seq<char>>,
    pub search_results: Option<(Seq<char>, Seq<Seq<char>>)>,
    pub indexing_in_progress: bool,
    pub ignore_patterns: Seq<Seq<char>>,
    pub new_pattern_input: Seq<char>,
}

impl View for MyApp {
    type V = AppView;

    open spec fn view(&self) -> AppView {
        AppView {
            root_dirs: texts(self.root_dirs@),
            search_text: self.search_text@,
            subdirs: texts(self.subdirs@),
            search_results: match self.search_results {
                Some((needle, hits)) => Some((needle@, texts(hits@))),
                None => None,
            },
            indexing_in_progress: self.indexing_in_progress,
            ignore_patterns: texts(self.ignore_patterns@),
            new_pattern_input: self.new_pattern_input@,
        }
    }
}

/// What the messages say, one by one.
pub open spec fn meanings(messages: Seq<AppMessage>) -> Seq<MessageView> {
    messages.map_values(|m: AppMessage| m@)
}

/// The directories that a run of messages announces, in order.
pub open spec fn announced(messages: Seq<MessageView>) -> Seq<Seq<char>>
    decreases messages.len(),
{
    if messages.len() == 0 {
        Seq::empty()
    } else {
        match messages.last() {
            MessageView::Subdir(path) => announced(messages.drop_last()).push(path),
            MessageView::Done => announced(messages.drop_last()),
        }
    }
}

/// The completion signal is among the messages.
pub open spec fn signals_done(messages: Seq<MessageView>) -> bool {
    exists|i: int| 0 <= i < messages.len() && messages[i] == MessageView::Done
}

/// The lines in which `needle` occurs, in their order.
pub open spec fn matching(lines: Seq<Seq<char>>, needle: Seq<char>) -> Seq<Seq<char>> {
    lines.filter(|line: Seq<char>| is_substring(line, needle))
}

/// The lines in which `needle` occurs, in their order. The test is the
/// literal one of the matcher: the lines are taken as they are.
pub fn search(lines: &[String], needle: &str) -> (hits: Vec<String>)
    ensures
        texts(hits@) == matching(texts(lines@), needle@),
{
    let needle_chars = chars_of(needle);
    let ghost all = texts(lines@);
    let ghost pred = |line: Seq<char>| is_substring(line, needle@);
    let mut hits: Vec<String> = Vec::new();
    let mut k: usize = 0;
    proof {
        reveal_with_fuel(Seq::filter, 2);
        assert(all.take(0) =~= Seq::<Seq<char>>::empty());
        assert(texts(hits@) =~= all.take(0).filter(pred));
    }
    while k < lines.len()
        invariant
            k <= lines.len(),
            all == texts(lines@),
            needle_chars@ == needle@,
            pred == (|line: Seq<char>| is_substring(line, needle@)),
            texts(hits@) == all.take(k as int).filter(pred),
        decreases lines.len() - k,
    {
        let line_chars = chars_of(lines[k].as_str());
        let ghost before = texts(hits@);
        proof {
            reveal_with_fuel(Seq::filter, 2);
            assert(all.take(k + 1).drop_last() =~= all.take(k as int));
            assert(all.take(k + 1).last() == lines@[k as int]@);
        }
        if contains_chars(&line_chars, &needle_chars) {
            hits.push(lines[k].clone());
            assert(texts(hits@) =~= before.push(lines@[k as int]@));
        }
        k += 1;
    }
    assert(all.take(lines@.len() as int) =~= all);
    hits
}

/// The row that stands in the list of directories at position `number`
/// (counted from one) before the first refresh.
pub open spec fn placeholder_row(number: nat) -> Seq<char> {
    "Subdir "@ + decimal(number) + " - "@ + repeated("asd"@, 45)
}

/// The number of placeholder rows before the first refresh.
pub const PLACEHOLDER_ROWS: u32 = 1999;

/// The state at start-up: three roots, the one ignore pattern `.git`,
/// placeholder rows in the list of directories, no search, no crawl under
/// way.
pub open spec fn initial() -> AppView {
    AppView {
        root_dirs: seq!["D:\\Repos"@, "G:\\ml"@, "G:\\Repos"@],
        search_text: Seq::empty(),
        subdirs: Seq::new(PLACEHOLDER_ROWS as nat, |i: int| placeholder_row((i + 1) as nat)),
        search_results: None,
        indexing_in_progress: false,
        ignore_patterns: seq![".git"@],
        new_pattern_input: Seq::empty(),
    }
}

/// The state after a refresh was begun: the directories and the search
/// results of the last crawl are gone, and indexing is under way.
pub open spec fn refreshed(s: AppView) -> AppView {
    AppView {
        subdirs: Seq::empty(),
        search_results: None,
        indexing_in_progress: true,
        ..s
    }
}

/// The state after one message: a directory is appended to the list, the
/// completion signal ends the indexing.
pub open spec fn received(s: AppView, message: MessageView) -> AppView {
    match message {
        MessageView::Subdir(path) => AppView { subdirs: s.subdirs.push(path), ..s },
        MessageView::Done => AppView { indexing_in_progress: false, ..s },
    }
}

/// The state after a run of messages, taken in their order.
pub open spec fn received_all(s: AppView, messages: Seq<MessageView>) -> AppView
    decreases messages.len(),
{
    if messages.len() == 0 {
        s
    } else {
        received(received_all(s, messages.drop_last()), messages.last())
    }
}

/// The state after a search for `needle` in the directories found so far.
pub open spec fn searched(s: AppView, needle: Seq<char>) -> AppView {
    AppView { search_results: Some((needle, matching(s.subdirs, needle))), ..s }
}

/// The state after `pattern` was offered as a new ignore pattern: a pattern
/// that is not empty is added behind the others and the input box is
/// emptied; an empty one changes nothing.
pub open spec fn with_pattern(s: AppView, pattern: Seq<char>) -> AppView {
    if pattern.len() > 0 {
        AppView {
            ignore_patterns: s.ignore_patterns.push(pattern),
            new_pattern_input: Seq::empty(),
            ..s
        }
    } else {
        s
    }
}

/// The state without the ignore pattern at `index`.
pub open spec fn without_pattern(s: AppView, index: int) -> AppView {
    AppView { ignore_patterns: s.ignore_patterns.remove(index), ..s }
}

fn placeholder(number: u32) -> (row: String)
    ensures
        row@ == placeholder_row(number as nat),
{
    let mut row = "Subdir ".to_owned();
    let numeral = decimal_text(number);
    row.append(numeral.as_str());
    row.append(" - ");
    let tail = repeat_text("asd", 45);
    row.append(tail.as_str());
    row
}

impl MyApp {
    /// The state at start-up.
    pub fn new() -> (app: Self)
        ensures
            app@ == initial(),
    {
        let mut root_dirs: Vec<String> = Vec::new();
        root_dirs.push("D:\\Repos".to_owned());
        root_dirs.push("G:\\ml".to_owned());
        root_dirs.push("G:\\Repos".to_owned());
        let mut ignore_patterns: Vec<String> = Vec::new();
        ignore_patterns.push(".git".to_owned());
        let mut subdirs: Vec<String> = Vec::new();
        let mut number: u32 = 1;
        while number <= PLACEHOLDER_ROWS
            invariant
                1 <= number <= PLACEHOLDER_ROWS + 1,
                subdirs@.len() == number - 1,
                forall|i: int|
                    0 <= i < number - 1 ==> (#[trigger] subdirs@[i])@ == placeholder_row(
                        (i + 1) as nat,
                    ),
            decreases PLACEHOLDER_ROWS + 1 - number,
        {
            subdirs.push(placeholder(number));
            number += 1;
        }
        let app = MyApp {
            root_dirs,
            search_text: String::new(),
            subdirs,
            search_results: None,
            indexing_in_progress: false,
            ignore_patterns,
            new_pattern_input: String::new(),
        };
        proof {
            assert(app@.root_dirs =~= initial().root_dirs);
            assert(app@.ignore_patterns =~= initial().ignore_patterns);
            assert(app@.subdirs =~= initial().subdirs);
            assert(app@ =~= initial());
        }
        app
    }

    /// Begins a refresh: the directories and the search results of the last
    /// crawl are dropped, the state is marked as indexing, and the session to
    /// run is returned. The session has its own copy of the roots and of the
    /// ignore patterns as they are now; later edits reach the next refresh
    /// only. That one crawl runs at a time is left to the caller, who can
    /// test `indexing_in_progress` first.
    pub fn refresh_subdirs(&mut self) -> (session: CrawlSession)
        ensures
            final(self)@ == refreshed(old(self)@),
            session@ == start(old(self)@.root_dirs, old(self)@.ignore_patterns),
            wf(session@),
    {
        self.subdirs.clear();
        self.search_results = None;
        self.indexing_in_progress = true;
        assert(self@ =~= refreshed(old(self)@));
        CrawlSession::new(self.root_dirs.as_slice(), self.ignore_patterns.as_slice())
    }

    /// Takes one message of the crawl.
    pub fn apply_message(&mut self, message: AppMessage)
        ensures
            final(self)@ == received(old(self)@, message@),
    {
        match message {
            AppMessage::Subdir(path) => {
                self.subdirs.push(path);
            },
            AppMessage::Done => {
                self.indexing_in_progress = false;
            },
        }
        assert(self@ =~= received(old(self)@, message@));
    }

    /// Takes what a poll of the channel returned, message by message in
    /// their order.
    pub fn apply_messages(&mut self, messages: Vec<AppMessage>)
        ensures
            final(self)@ == received_all(old(self)@, meanings(messages@)),
    {
        let ghost all = meanings(messages@);
        assert(all.take(0) =~= Seq::<MessageView>::empty());
        for message in it: messages
            invariant
                it.seq() == messages@,
                all == meanings(messages@),
                self@ == received_all(old(self)@, all.take(it.index() as int)),
        {
            proof {
                let k = it.index() as int;
                assert(all.take(k + 1).drop_last() =~= all.take(k));
                assert(all.take(k + 1).last() == message@);
            }
            self.apply_message(message);
        }
        assert(all.take(messages@.len() as int) =~= all);
    }

    /// Searches the directories found so far for `needle` and keeps the
    /// needle with what matched as the last search.
    pub fn search_for(&mut self, needle: String)
        ensures
            final(self)@ == searched(old(self)@, needle@),
    {
        let hits = search(self.subdirs.as_slice(), needle.as_str());
        self.search_results = Some((needle, hits));
        assert(self@ =~= searched(old(self)@, needle@));
    }

    /// Runs the search of the search box: the needle is the box's text,
    /// trimmed and in lower case; the directories are taken as they are.
    pub fn run_search(&mut self)
        ensures
            final(self)@ == searched(old(self)@, lowercased(trimmed(old(self)@.search_text))),
    {
        let needle = to_lowercase(trim(self.search_text.as_str()));
        self.search_for(needle);
    }

    /// Offers `pattern` as a new ignore pattern. Returns whether it was
    /// added.
    pub fn accept_pattern(&mut self, pattern: &str) -> (added: bool)
        ensures
            final(self)@ == with_pattern(old(self)@, pattern@),
            added == (pattern@.len() > 0),
    {
        if pattern.is_empty() {
            return false;
        }
        self.ignore_patterns.push(pattern.to_owned());
        self.new_pattern_input = String::new();
        assert(self@ =~= with_pattern(old(self)@, pattern@));
        true
    }

    /// Offers the text of the input box, trimmed, as a new ignore pattern.
    /// Returns whether it was added.
    pub fn add_pattern(&mut self) -> (added: bool)
        ensures
            final(self)@ == with_pattern(old(self)@, trimmed(old(self)@.new_pattern_input)),
            added == (trimmed(old(self)@.new_pattern_input).len() > 0),
    {
        let pattern = trim(self.new_pattern_input.as_str()).to_owned();
        self.accept_pattern(pattern.as_str())
    }

    /// Removes the ignore pattern at `index`; those behind it move up.
    pub fn remove_pattern(&mut self, index: usize)
        requires
            index < old(self)@.ignore_patterns.len(),
        ensures
            final(self)@ == without_pattern(old(self)@, index as int),
    {
        self.ignore_patterns.remove(index);
        assert(self@ =~= without_pattern(old(self)@, index as int));
    }
}

} // verus!
