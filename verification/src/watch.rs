//! Classifying file system events of a watch session.
//!
//! An event of the file system watcher names a kind and some paths. An event
//! that creates, rewrites, renames or removes a file is taken up: the first
//! of its paths is made relative to the project directory, the rules of the
//! project's ignore file are consulted, and the file's extension decides
//! which kind of change is handed to the scheduler. Everything else is
//! ignored, and the scheduler never hears of it.

use crate::backlog_builder::{BacklogBuilder, Op};
use crate::builds::ChangeType;
use crate::paths;
use crate::text;
use gitignored::Gitignore;
use vstd::prelude::*;

verus! {

/// What was created.
#[derive(Debug, Clone, Copy, PartialEq, Eq, Structural)]
pub enum CreateKind {
    Any,
    File,
    Folder,
    Other,
}

/// What changed in a file's data.
#[derive(Debug, Clone, Copy, PartialEq, Eq, Structural)]
pub enum DataChange {
    Any,
    Size,
    Content,
    Other,
}

/// What was modified.
#[derive(Debug, Clone, Copy, PartialEq, Eq, Structural)]
pub enum ModifyKind {
    Any,
    Data(DataChange),
    Metadata,
    Name,
    Other,
}

/// The kind of a file system event.
#[derive(Debug, Clone, Copy, PartialEq, Eq, Structural)]
pub enum EventKind {
    Any,
    Access,
    Create(CreateKind),
    Modify(ModifyKind),
    Remove,
    Other,
}

/// A file system event: its kind and the paths it concerns.
#[derive(Debug, Clone, PartialEq, Eq)]
pub struct Event {
    pub kind: EventKind,
    pub paths: Vec<String>,
}

/// Why an event led to no build.
#[derive(Debug, Clone, PartialEq, Eq)]
pub enum Error {
    /// The watcher failed; the text is its message.
    Notify(String),
    /// The event is of a kind that changes no file's content.
    IgnoredEvent(Event),
    /// The event names no path.
    EventFilePath(Event),
    /// The path does not lie below the project directory.
    RelativePath(String),
    /// The file is matched by an ignore rule, or is no source file.
    IgnoredFileType(String),
}

/// The settings of a watch session, and its scheduler.
#[derive(Debug, Clone)]
pub struct Config {
    /// The project directory.
    pub current_dir: String,
    /// The text of the project's ignore file, if it has one.
    pub gitignore: Option<String>,
    /// The scheduler that changes are reported to.
    pub builder: BacklogBuilder,
}

impl Config {
    /// The settings for watching `current_dir`.
    pub fn new(current_dir: &str, gitignore: Option<String>, builder: BacklogBuilder) -> (c: Config)
        ensures
            c.current_dir@ == current_dir@,
            c.gitignore == gitignore,
            c.builder == builder,
    {
        Config { current_dir: current_dir.to_owned(), gitignore, builder }
    }
}

/// Whether an event of this kind creates, rewrites, renames or removes a
/// file.
pub open spec fn concerns_file(kind: EventKind) -> bool {
    match kind {
        EventKind::Create(CreateKind::File) => true,
        EventKind::Modify(ModifyKind::Data(DataChange::Content)) => true,
        EventKind::Modify(ModifyKind::Name) => true,
        EventKind::Remove => true,
        _ => false,
    }
}

/// The path that an event is about: the first of its paths, where the event
/// concerns a file. An event of another kind is ignored, and one that
/// concerns a file but names no path is an error.
pub fn filepath_from_event(event: Event) -> (r: Result<String, Error>)
    ensures
        !concerns_file(event.kind) ==> r == Err::<String, Error>(Error::IgnoredEvent(event)),
        concerns_file(event.kind) && event.paths@.len() == 0 ==> r == Err::<String, Error>(
            Error::EventFilePath(event),
        ),
        concerns_file(event.kind) && event.paths@.len() > 0 ==> r == Ok::<String, Error>(
            event.paths@[0],
        ),
{
    let wanted = match event.kind {
        EventKind::Create(create_kind) => match create_kind {
            CreateKind::File => true,
            _ => false,
        },
        EventKind::Modify(modify_kind) => match modify_kind {
            ModifyKind::Data(data_change) => match data_change {
                DataChange::Content => true,
                _ => false,
            },
            ModifyKind::Name => true,
            _ => false,
        },
        EventKind::Remove => true,
        _ => false,
    };
    if !wanted {
        Err(Error::IgnoredEvent(event))
    } else if event.paths.len() == 0 {
        Err(Error::EventFilePath(event))
    } else {
        Ok(event.paths[0].clone())
    }
}

/// Whether `c` is white space.
pub open spec fn is_whitespace(c: char) -> bool {
    let u = c as u32;
    ||| 0x09 <= u <= 0x0d
    ||| u == 0x20
    ||| u == 0x85
    ||| u == 0xa0
    ||| u == 0x1680
    ||| 0x2000 <= u <= 0x200a
    ||| u == 0x2028
    ||| u == 0x2029
    ||| u == 0x202f
    ||| u == 0x205f
    ||| u == 0x3000
}

/// The deepest nesting of `{` groups in a glob that is taken up.
pub const MAX_GROUP_DEPTH: usize = 8;

/// Where the reading of a glob stands.
pub struct GlobState {
    /// The number of `{` groups that are open.
    pub depth: nat,
    /// Whether a `[` class is open.
    pub in_class: bool,
    /// Whether the class was just opened, so that `!` or `^` negates it.
    pub at_start: bool,
    /// Whether the class has no member yet.
    pub first: bool,
    /// Whether a `-` was read that makes a range of the last member.
    pub in_range: bool,
    /// The character with which the last member of the class begins.
    pub low: char,
}

/// The state before a glob is read.
pub open spec fn glob_start() -> GlobState {
    GlobState {
        depth: 0,
        in_class: false,
        at_start: false,
        first: false,
        in_range: false,
        low: ' ',
    }
}

/// The state after `c` is read in the state `st`, or `None` where `c`
/// makes the glob ill formed. Outside a class, `[` opens a class, `{` opens
/// a group unless the groups are nested too deeply, and `}` closes a group
/// that is open. In a class, a `!` or `^` at the very start negates; a `]`
/// closes the class unless it is the first member; a `-` behind a member
/// begins a range, which the next character ends and which must not run
/// backwards; every other character is a member.
pub open spec fn glob_step(st: GlobState, c: char) -> Option<GlobState> {
    if st.in_class {
        if st.at_start && (c == '!' || c == '^') {
            Some(GlobState { at_start: false, ..st })
        } else if st.first {
            Some(GlobState { at_start: false, first: false, low: c, ..st })
        } else if c == ']' {
            Some(GlobState { in_class: false, in_range: false, ..st })
        } else if st.in_range {
            if c < st.low {
                None
            } else {
                Some(GlobState { in_range: false, ..st })
            }
        } else if c == '-' {
            Some(GlobState { in_range: true, ..st })
        } else {
            Some(GlobState { low: c, ..st })
        }
    } else if c == '[' {
        Some(GlobState { in_class: true, at_start: true, first: true, in_range: false, ..st })
    } else if c == '{' {
        if st.depth >= MAX_GROUP_DEPTH {
            None
        } else {
            Some(GlobState { depth: st.depth + 1, ..st })
        }
    } else if c == '}' {
        if st.depth == 0 {
            None
        } else {
            Some(GlobState { depth: (st.depth - 1) as nat, ..st })
        }
    } else {
        Some(st)
    }
}

/// The state after the glob `s` is read, or `None` where it is ill formed.
pub open spec fn glob_scan(s: Seq<char>) -> Option<GlobState>
    decreases s.len(),
{
    if s.len() == 0 {
        Some(glob_start())
    } else {
        match glob_scan(s.drop_last()) {
            Some(st) => glob_step(st, s.last()),
            None => None,
        }
    }
}

/// Whether the groups of the glob `s` are well formed: every class and
/// every group is closed, no `}` stands without its `{`, no range of a
/// class runs backwards, and groups are nested no deeper than
/// `MAX_GROUP_DEPTH`.
pub open spec fn is_glob(s: Seq<char>) -> bool {
    glob_scan(s) matches Some(st) && !st.in_class && st.depth == 0
}

/// Whether `s` holds no `\`, which some systems read as a separator of
/// path segments and others as a character of a name.
pub open spec fn is_portable(s: Seq<char>) -> bool {
    forall|i: int| 0 <= i < s.len() ==> #[trigger] s[i] != '\\'
}

/// The longest project directory that the ignore rules are matched under.
pub const MAX_ROOT_LEN: usize = 4096;

/// The longest ignore rule that is taken up.
pub const MAX_RULE_LEN: usize = 1024;

/// Whether `c` is no white space.
pub open spec fn is_solid() -> spec_fn(char) -> bool {
    |c: char| !is_whitespace(c)
}

/// A rule as the matcher takes it: without the `!` that may begin it and
/// without white space.
pub open spec fn rule_text(line: Seq<char>) -> Seq<char> {
    if line.len() > 0 && line[0] == '!' {
        line.skip(1).filter(is_solid())
    } else {
        line.filter(is_solid())
    }
}

/// The part of a rule that the matcher compiles as a glob: the rule
/// without the `*` that may end it.
pub open spec fn rule_glob(line: Seq<char>) -> Seq<char> {
    let text = rule_text(line);
    if text.len() > 0 && text.last() == '*' {
        text.drop_last()
    } else {
        text
    }
}

/// Whether a line of an ignore file is a rule that the matcher takes: it
/// is portable and not overlong, it holds more than white space behind the
/// `!` that may begin it, and the groups of its glob are well formed.
pub open spec fn is_rule(line: Seq<char>) -> bool {
    &&& is_portable(line)
    &&& line.len() <= MAX_RULE_LEN
    &&& rule_text(line).len() > 0
    &&& is_glob(rule_glob(line))
}

/// `is_rule` as a predicate.
pub open spec fn rule_pred() -> spec_fn(Seq<char>) -> bool {
    |line: Seq<char>| is_rule(line)
}

/// Whether the matcher finds the file `target` ignored by `rules`, which
/// are written relative to the directory `root`.
pub uninterp spec fn gitignore_ignores(
    root: Seq<char>,
    rules: Seq<Seq<char>>,
    target: Seq<char>,
) -> bool;

/// The views of a vector of strings.
pub open spec fn views(v: Seq<String>) -> Seq<Seq<char>> {
    v.map_values(|s: String| s@)
}

/// `gitignored::Gitignore::ignores` on a matcher made by `Gitignore::new`
/// with both options off: whether `target` is ignored by the rules. The
/// matcher takes the `!` and the white space out of each rule, cuts off a
/// `*` at its end, puts `root` before it and compiles the whole as a glob.
/// It fails on a rule that is empty then, on a glob whose groups are ill
/// formed and on a glob too long or too deeply nested to compile; such
/// input is left out, and so is text with a `\`, which systems read
/// differently. What comes back is a function of the three arguments.
#[verifier::external_body]
fn gitignore_verdict(root: &str, rules: &Vec<String>, target: &str) -> (ignored: bool)
    requires
        is_glob(root@),
        is_portable(root@),
        root@.len() <= MAX_ROOT_LEN,
        is_portable(target@),
        forall|i: int| 0 <= i < rules@.len() ==> is_rule(#[trigger] rules@[i]@),
    ensures
        ignored == gitignore_ignores(root@, views(rules@), target@),
{
    let lines: Vec<&str> = rules.iter().map(|rule| rule.as_str()).collect();
    let mut matcher = Gitignore::new(root, false, false);
    matcher.ignores(&lines, target)
}

/// Decides whether `c` is white space.
fn char_is_whitespace(c: char) -> (r: bool)
    ensures
        r == is_whitespace(c),
{
    let u: u32 = c as u32;
    (0x09 <= u && u <= 0x0d) || u == 0x20 || u == 0x85 || u == 0xa0 || u == 0x1680 || (0x2000 <= u
        && u <= 0x200a) || u == 0x2028 || u == 0x2029 || u == 0x202f || u == 0x205f || u
        == 0x3000
}

/// Decides whether the groups of the glob `s` are well formed.
fn check_glob(s: &Vec<char>) -> (r: bool)
    ensures
        r == is_glob(s@),
{
    let mut depth: usize = 0;
    let mut in_class = false;
    let mut at_start = false;
    let mut first = false;
    let mut in_range = false;
    let mut low: char = ' ';
    let mut i: usize = 0;
    assert(s@.take(0) =~= Seq::<char>::empty());
    while i < s.len()
        invariant
            i <= s.len(),
            depth <= MAX_GROUP_DEPTH,
            glob_scan(s@.take(i as int)) == Some(
                GlobState { depth: depth as nat, in_class, at_start, first, in_range, low },
            ),
        decreases s.len() - i,
    {
        let c = s[i];
        proof {
            assert(s@.take(i + 1).drop_last() =~= s@.take(i as int));
            assert(s@.take(i + 1).last() == c);
        }
        if in_class {
            if at_start && (c == '!' || c == '^') {
                at_start = false;
            } else if first {
                at_start = false;
                first = false;
                low = c;
            } else if c == ']' {
                in_class = false;
                in_range = false;
            } else if in_range {
                if c < low {
                    proof {
                        lemma_bad_glob_stays_bad(s@, i + 1);
                    }
                    return false;
                }
                in_range = false;
            } else if c == '-' {
                in_range = true;
            } else {
                low = c;
            }
        } else if c == '[' {
            in_class = true;
            at_start = true;
            first = true;
            in_range = false;
        } else if c == '{' {
            if depth >= MAX_GROUP_DEPTH {
                proof {
                    lemma_bad_glob_stays_bad(s@, i + 1);
                }
                return false;
            }
            depth = depth + 1;
        } else if c == '}' {
            if depth == 0 {
                proof {
                    lemma_bad_glob_stays_bad(s@, i + 1);
                }
                return false;
            }
            depth = depth - 1;
        }
        i = i + 1;
    }
    assert(s@.take(s.len() as int) =~= s@);
    !in_class && depth == 0
}

/// A glob that is ill formed up to some point is ill formed as a whole.
proof fn lemma_bad_glob_stays_bad(s: Seq<char>, upto: int)
    requires
        0 <= upto <= s.len(),
        glob_scan(s.take(upto)) is None,
    ensures
        glob_scan(s) is None,
    decreases s.len() - upto,
{
    if upto < s.len() {
        assert(s.take(upto + 1).drop_last() =~= s.take(upto));
        lemma_bad_glob_stays_bad(s, upto + 1);
    } else {
        assert(s.take(upto) =~= s);
    }
}

/// Decides whether `s` is portable.
fn check_portable(s: &Vec<char>) -> (r: bool)
    ensures
        r == is_portable(s@),
{
    let mut i: usize = 0;
    while i < s.len()
        invariant
            i <= s.len(),
            forall|j: int| 0 <= j < i ==> #[trigger] s@[j] != '\\',
        decreases s.len() - i,
    {
        if s[i] == '\\' {
            return false;
        }
        i = i + 1;
    }
    true
}

/// Decides whether a line of an ignore file is a rule.
fn check_rule(line: &Vec<char>) -> (r: bool)
    ensures
        r == is_rule(line@),
{
    if !check_portable(line) || line.len() > MAX_RULE_LEN {
        return false;
    }
    let from: usize = if line.len() > 0 && line[0] == '!' {
        1
    } else {
        0
    };
    let ghost body = line@.skip(from as int);
    let mut text: Vec<char> = Vec::new();
    let mut i: usize = from;
    proof {
        reveal(Seq::filter);
        assert(line@.skip(0) =~= line@);
        assert(body.take(0).filter(is_solid()) =~= Seq::<char>::empty());
    }
    while i < line.len()
        invariant
            from <= i <= line.len(),
            body == line@.skip(from as int),
            text@ == body.take(i - from).filter(is_solid()),
        decreases line.len() - i,
    {
        proof {
            reveal(Seq::filter);
            assert(body.take(i - from + 1).drop_last() =~= body.take(i - from));
            assert(body.take(i - from + 1).last() == line@[i as int]);
        }
        if !char_is_whitespace(line[i]) {
            text.push(line[i]);
        }
        i = i + 1;
    }
    assert(body.take(line.len() - from) =~= body);
    if text.len() == 0 {
        return false;
    }
    let end: usize = if text[text.len() - 1] == '*' {
        text.len() - 1
    } else {
        text.len()
    };
    let glob = text::slice(&text, 0, end);
    assert(glob@ =~= rule_glob(line@));
    check_glob(&glob)
}

/// Whether the file at `path`, relative to the directory `root`, is
/// ignored by the rules of an ignore file. Without an ignore file nothing
/// is ignored. The lines of the file that are rules are handed to the
/// matcher, together with the file's path below `root`. Where `root` is
/// no well formed glob, not portable or overlong, or that path is not
/// portable, no rule can be matched and nothing is ignored.
pub open spec fn ignored_by(root: Seq<char>, gitignore: Option<Seq<char>>, path: Seq<char>) -> bool {
    match gitignore {
        None => false,
        Some(rules) => {
            let target = paths::spec_join(root, path);
            &&& is_glob(root)
            &&& is_portable(root)
            &&& root.len() <= MAX_ROOT_LEN
            &&& is_portable(target)
            &&& gitignore_ignores(root, text::split_lines(rules).filter(rule_pred()), target)
        },
    }
}

/// Whether the ignore rules of `config` match the file at `path`, which is
/// relative to the project directory.
pub fn is_ignored(config: &Config, path: &str) -> (r: bool)
    ensures
        r == ignored_by(config.current_dir@, text::opt_view(config.gitignore), path@),
{
    match &config.gitignore {
        None => false,
        Some(gitignore) => {
            let root = text::to_chars(config.current_dir.as_str());
            let target = paths::join(config.current_dir.as_str(), path);
            let target_chars = text::to_chars(target.as_str());
            if !check_glob(&root) || !check_portable(&root) || root.len() > MAX_ROOT_LEN
                || !check_portable(&target_chars) {
                return false;
            }
            let lines = text::lines(&text::to_chars(gitignore.as_str()));
            let ghost all = text::split_lines(gitignore@);
            let mut rules: Vec<String> = Vec::new();
            let mut i: usize = 0;
            proof {
                reveal(Seq::filter);
                assert(views(rules@) =~= all.take(0).filter(rule_pred()));
            }
            while i < lines.len()
                invariant
                    i <= lines.len(),
                    text::texts(lines@) == all,
                    views(rules@) == all.take(i as int).filter(rule_pred()),
                    forall|j: int| 0 <= j < rules@.len() ==> is_rule(#[trigger] rules@[j]@),
                decreases lines.len() - i,
            {
                proof {
                    reveal(Seq::filter);
                    assert(all.take(i + 1).drop_last() == all.take(i as int));
                    assert(all.take(i + 1).last() == lines@[i as int]@);
                }
                if check_rule(&lines[i]) {
                    let rule = text::from_chars(&lines[i]);
                    proof {
                        assert(views(rules@.push(rule)) =~= views(rules@).push(rule@));
                    }
                    rules.push(rule);
                }
                i = i + 1;
            }
            assert(all.take(lines.len() as int) == all);
            gitignore_verdict(config.current_dir.as_str(), &rules, target.as_str())
        },
    }
}

/// The kind of change that a change of the file at `path` is, going by its
/// extension.
pub open spec fn change_of(path: Seq<char>) -> Option<ChangeType> {
    if paths::extension(path) == Some("rs"@) {
        Some(ChangeType::Rust)
    } else if paths::extension(path) == Some("ts"@) {
        Some(ChangeType::TypeScript)
    } else {
        None
    }
}

/// The kind of change that the file at `path` stands for, unless it is
/// ignored.
pub open spec fn classify(root: Seq<char>, gitignore: Option<Seq<char>>, path: Seq<char>) -> Option<
    ChangeType,
> {
    if ignored_by(root, gitignore, path) {
        None
    } else {
        change_of(path)
    }
}

impl Config {
    /// The text of the ignore file as a plain value.
    pub open spec fn rules(self) -> Option<Seq<char>> {
        text::opt_view(self.gitignore)
    }
}

/// Classifies a changed file by its path, which is relative to the project
/// directory. A file that an ignore rule matches, and a file that is no
/// source file, are refused with the path.
pub fn classify_file(config: &Config, path: &str) -> (r: Result<ChangeType, Error>)
    ensures
        match classify(config.current_dir@, config.rules(), path@) {
            Some(change) => r == Ok::<ChangeType, Error>(change),
            None => r matches Err(Error::IgnoredFileType(p)) && p@ == path@,
        },
{
    if is_ignored(config, path) {
        Err(Error::IgnoredFileType(path.to_owned()))
    } else if paths::has_extension(path, "rs") {
        Ok(ChangeType::Rust)
    } else if paths::has_extension(path, "ts") {
        Ok(ChangeType::TypeScript)
    } else {
        Err(Error::IgnoredFileType(path.to_owned()))
    }
}

/// The change that an event stands for, if it stands for one.
pub open spec fn change_from(
    root: Seq<char>,
    gitignore: Option<Seq<char>>,
    event: Result<Event, String>,
) -> Option<ChangeType> {
    match event {
        Err(_) => None,
        Ok(event) => if concerns_file(event.kind) && event.paths@.len() > 0 {
            match paths::spec_strip_prefix(event.paths@[0]@, root) {
                Some(rel) => classify(root, gitignore, rel),
                None => None,
            }
        } else {
            None
        },
    }
}

/// Takes up one event of the watcher, or the watcher's failure. An event
/// that stands for a change is reported to the scheduler, and the result
/// says whether the caller must start a worker. Any other event leaves the
/// scheduler as it was and is returned as the error that says why.
pub fn on_event(config: &mut Config, event_result: Result<Event, String>) -> (r: Result<bool, Error>)
    ensures
        final(config).current_dir == old(config).current_dir,
        final(config).gitignore == old(config).gitignore,
        match change_from(old(config).current_dir@, old(config).rules(), event_result) {
            Some(change) => {
                &&& r == Ok::<bool, Error>(
                    old(config).builder@.starts_worker(Op::Enqueue(change)),
                )
                &&& final(config).builder@ == old(config).builder@.after(Op::Enqueue(change))
            },
            None => r is Err && final(config).builder == old(config).builder,
        },
        event_result matches Err(message) ==> r == Err::<bool, Error>(Error::Notify(message)),
        event_result matches Ok(event) ==> {
            &&& !concerns_file(event.kind) ==> r == Err::<bool, Error>(Error::IgnoredEvent(event))
            &&& concerns_file(event.kind) && event.paths@.len() == 0 ==> r == Err::<bool, Error>(
                Error::EventFilePath(event),
            )
            &&& concerns_file(event.kind) && event.paths@.len() > 0 ==> {
                let path = event.paths@[0];
                match paths::spec_strip_prefix(path@, old(config).current_dir@) {
                    None => r == Err::<bool, Error>(Error::RelativePath(path)),
                    Some(rel) => classify(old(config).current_dir@, old(config).rules(), rel)
                        is None ==> (r matches Err(Error::IgnoredFileType(p)) && p@ == rel),
                }
            }
        },
{
    let event = match event_result {
        Ok(event) => event,
        Err(message) => {
            return Err(Error::Notify(message));
        },
    };
    let file_path = match filepath_from_event(event) {
        Ok(path) => path,
        Err(err) => {
            return Err(err);
        },
    };
    let rel_path = match paths::strip_prefix(file_path.as_str(), config.current_dir.as_str()) {
        Some(rel) => rel,
        None => {
            return Err(Error::RelativePath(file_path));
        },
    };
    let change_type = match classify_file(config, rel_path.as_str()) {
        Ok(change) => change,
        Err(err) => {
            return Err(err);
        },
    };
    let start_worker = config.builder.enqueue(change_type);
    Ok(start_worker)
}

/// An event about a file that is no source file never reaches the
/// scheduler: where the extension of the event's first path is neither
/// `rs` nor `ts`, the event stands for no change, whatever its kind and
/// whatever the ignore rules say.
pub proof fn lemma_other_files_stand_for_no_change(
    root: Seq<char>,
    gitignore: Option<Seq<char>>,
    event: Event,
)
    requires
        event.paths@.len() > 0 ==> change_of(event.paths@[0]@) is None,
    ensures
        change_from(root, gitignore, Ok(event)) is None,
{
    if event.paths@.len() > 0 {
        let path = event.paths@[0]@;
        match paths::spec_strip_prefix(path, root) {
            Some(rel) => {
                if rel.len() > 0 {
                    paths::lemma_extension_of_relative(path, root);
                } else {
                    text::lemma_last_index_of(rel, '.');
                    text::lemma_last_index_of(rel, '/');
                }
            },
            None => {},
        }
    }
}

/// What the owner of a watch session does after an event.
#[derive(Debug, Clone, PartialEq, Eq)]
pub struct Reaction {
    /// Whether a worker must be started.
    pub start_worker: bool,
    /// The line to print, if there is something to say.
    pub message: Option<String>,
}

/// One turn of a watch session: takes up the event, reports the change it
/// stands for to the scheduler, and says what the owner of the session has
/// to do. An event that stands for no change starts no worker and leaves
/// the scheduler as it was; it is passed over in silence where it was
/// ignored, and gives a line to print where something failed.
pub fn watch(config: &mut Config, event_result: Result<Event, String>) -> (r: Reaction)
    ensures
        final(config).current_dir == old(config).current_dir,
        final(config).gitignore == old(config).gitignore,
        match change_from(old(config).current_dir@, old(config).rules(), event_result) {
            Some(change) => {
                &&& r.start_worker == old(config).builder@.starts_worker(Op::Enqueue(change))
                &&& r.message is None
                &&& final(config).builder@ == old(config).builder@.after(Op::Enqueue(change))
            },
            None => !r.start_worker && final(config).builder == old(config).builder,
        },
        event_result matches Err(message) ==> (r.message matches Some(line) && line@
            == "Watcher error: "@ + message@),
        event_result matches Ok(event) ==> {
            &&& !concerns_file(event.kind) ==> r.message is None
            &&& concerns_file(event.kind) && event.paths@.len() == 0 ==> (
            r.message matches Some(line) && line@ == "Failed to get path from event"@)
            &&& concerns_file(event.kind) && event.paths@.len() > 0 ==> (
            match paths::spec_strip_prefix(event.paths@[0]@, old(config).current_dir@) {
                None => r.message matches Some(line) && line@ == "Failed to get relative path: "@
                    + event.paths@[0]@,
                Some(_) => r.message is None,
            })
        },
{
    match on_event(config, event_result) {
        Ok(start_worker) => Reaction { start_worker, message: None },
        Err(err) => Reaction { start_worker: false, message: handle_error(&err) },
    }
}

/// What is said to the user about an event that led to no build: nothing
/// where the event was ignored, and a line that names the failure
/// otherwise.
pub open spec fn message_for(err: Error) -> Option<Seq<char>> {
    match err {
        Error::Notify(message) => Some("Watcher error: "@ + message@),
        Error::IgnoredEvent(_) => None,
        Error::EventFilePath(_) => Some("Failed to get path from event"@),
        Error::RelativePath(path) => Some("Failed to get relative path: "@ + path@),
        Error::IgnoredFileType(_) => None,
    }
}

/// The line to print for `err`, if it is to be reported.
pub fn handle_error(err: &Error) -> (line: Option<String>)
    ensures
        line is Some <==> message_for(*err) is Some,
        line matches Some(l) ==> message_for(*err) == Some(l@),
{
    match err {
        Error::Notify(message) => Some(text::append("Watcher error: ", message.as_str())),
        Error::IgnoredEvent(_) => None,
        Error::EventFilePath(_) => Some("Failed to get path from event".to_owned()),
        Error::RelativePath(path) => Some(
            text::append("Failed to get relative path: ", path.as_str()),
        ),
        Error::IgnoredFileType(_) => None,
    }
}

} // verus!
