//! Decisions of the remote helper: how Git's commands are batched and
//! answered, what a fetch streams back, and how a push is checked and
//! recorded. Reading, writing, running Git and talking to storage are left
//! to the caller, which performs each action and reports its outcome.

use vstd::prelude::*;
use crate::protocol::{Command, CommandView};
use crate::storage::{apply_updates, bundle_key, lemma_apply_updates, spec_bundle_key, RefsStore, RefsStoreView};
use crate::strmap::{keys_unique, pairs_insert, pairs_to_map, StringMap};
use crate::text::{concat2, str_eq, substring};

verus! {

/// The character view of a list of lines.
pub open spec fn lines_view(lines: Seq<String>) -> Seq<Seq<char>> {
    lines.map_values(|l: String| l@)
}

/// The reply to `option <key> <value>`: only `verbosity` is supported.
pub open spec fn spec_option_response(key: Seq<char>) -> Seq<char> {
    if key == "verbosity"@ {
        "ok"@
    } else {
        "unsupported"@
    }
}

/// The reply to `option <key> <value>`.
pub fn option_response(key: &str) -> (r: &'static str)
    ensures
        r@ == spec_option_response(key@),
        r@ == "ok"@ <==> key@ == "verbosity"@,
        key@ != "verbosity"@ ==> r@ == "unsupported"@,
{
    proof {
        lemma_option_response(key@);
    }
    if str_eq(key, "verbosity") {
        "ok"
    } else {
        "unsupported"
    }
}

/// Refspec for branches.
pub const REFSPEC: &'static str = "refs/heads/*:refs/heads/*";

/// Refspec for tags.
pub const REFSPEC_TAGS: &'static str = "refs/tags/*:refs/tags/*";

/// The reply to `capabilities`, line by line, ending with the blank line.
pub open spec fn spec_capabilities() -> Seq<Seq<char>> {
    seq![
        "import"@,
        "push"@,
        "option"@,
        "refspec "@ + REFSPEC@,
        "refspec "@ + REFSPEC_TAGS@,
        Seq::empty(),
    ]
}

/// The reply to `capabilities`, line by line, ending with the blank line.
pub fn capabilities_lines() -> (lines: Vec<String>)
    ensures
        lines_view(lines@) == spec_capabilities(),
{
    let mut v: Vec<String> = Vec::new();
    v.push("import".to_owned());
    v.push("push".to_owned());
    v.push("option".to_owned());
    v.push(concat2("refspec ", REFSPEC));
    v.push(concat2("refspec ", REFSPEC_TAGS));
    v.push(String::new());
    assert(lines_view(v@) =~= spec_capabilities());
    v
}

/// The ref that `HEAD` points to: `refs/heads/main`, else
/// `refs/heads/master`, else the first stored ref; none for an empty store.
pub open spec fn spec_head(refs: Seq<(Seq<char>, Seq<char>)>) -> Option<Seq<char>> {
    if pairs_to_map(refs).contains_key("refs/heads/main"@) {
        Some("refs/heads/main"@)
    } else if pairs_to_map(refs).contains_key("refs/heads/master"@) {
        Some("refs/heads/master"@)
    } else if refs.len() > 0 {
        Some(refs[0].0)
    } else {
        None
    }
}

/// The ref that `HEAD` points to in `store`.
pub fn determine_head(store: &RefsStore) -> (r: Option<String>)
    ensures
        match spec_head(store@.refs) {
            Some(h) => r is Some && r->0@ == h,
            None => r is None,
        },
{
    if store.refs.contains_key("refs/heads/main") {
        Some("refs/heads/main".to_owned())
    } else if store.refs.contains_key("refs/heads/master") {
        Some("refs/heads/master".to_owned())
    } else if store.refs.len() > 0 {
        let (name, _) = store.refs.entry(0);
        Some(name.clone())
    } else {
        None
    }
}

/// The reply to `list`: one `<sha> <ref>` line per stored ref, then
/// `@<head> HEAD`, then the blank line; only the blank line for an empty
/// store.
pub open spec fn spec_list_lines(refs: Seq<(Seq<char>, Seq<char>)>) -> Seq<Seq<char>> {
    if refs.len() == 0 {
        seq![Seq::empty()]
    } else {
        refs.map_values(|p: (Seq<char>, Seq<char>)| p.1 + " "@ + p.0) + match spec_head(refs) {
            Some(h) => seq!["@"@ + h + " HEAD"@],
            None => Seq::empty(),
        } + seq![Seq::empty()]
    }
}

/// The reply to `list` (and `list for-push`), line by line.
pub fn list_lines(store: &RefsStore) -> (lines: Vec<String>)
    ensures
        lines_view(lines@) == spec_list_lines(store@.refs),
{
    let n = store.refs.len();
    let mut v: Vec<String> = Vec::new();
    if n == 0 {
        v.push(String::new());
        assert(lines_view(v@) =~= seq![Seq::<char>::empty()]);
        return v;
    }
    let ghost refs = store@.refs;
    let mut i: usize = 0;
    while i < n
        invariant
            n == refs.len(),
            refs == store@.refs,
            i <= n,
            v@.len() == i,
            lines_view(v@) == refs.take(i as int).map_values(
                |p: (Seq<char>, Seq<char>)| p.1 + " "@ + p.0,
            ),
        decreases n - i,
    {
        let (name, sha) = store.refs.entry(i);
        let a = concat2(sha.as_str(), " ");
        let line = concat2(a.as_str(), name.as_str());
        let ghost before = v@;
        v.push(line);
        proof {
            lemma_lines_view_push(before, line);
            lemma_take_map_push(refs, |p: (Seq<char>, Seq<char>)| p.1 + " "@ + p.0, i as int);
        }
        i = i + 1;
    }
    assert(refs.take(n as int) =~= refs);
    let head = determine_head(store);
    match head {
        Some(h) => {
            let a = concat2("@", h.as_str());
            v.push(concat2(a.as_str(), " HEAD"));
        },
        None => {},
    }
    v.push(String::new());
    assert(lines_view(v@) =~= spec_list_lines(refs));
    v
}

/// The `reset` commands for the wanted refs that `refs` holds, in the order
/// asked for; refs it does not hold are left out.
pub open spec fn spec_resets(
    refs: Map<Seq<char>, Seq<char>>,
    wanted: Seq<Seq<char>>,
) -> Seq<char>
    decreases wanted.len(),
{
    if wanted.len() == 0 {
        Seq::empty()
    } else {
        let w = wanted.last();
        spec_resets(refs, wanted.drop_last()) + if refs.contains_key(w) {
            "reset "@ + w + "\nfrom "@ + refs[w] + "\n\n"@
        } else {
            Seq::empty()
        }
    }
}

/// The fast-import stream answering an import of `wanted`: `feature done`,
/// then (when the store holds bundles) one `reset`/`from` pair per wanted ref
/// that the store holds, then `done`.
pub open spec fn spec_import_stream(store: RefsStoreView, wanted: Seq<Seq<char>>) -> Seq<char> {
    if store.bundles.len() == 0 {
        "feature done\n"@ + "done\n"@
    } else {
        "feature done\n"@ + spec_resets(pairs_to_map(store.refs), wanted) + "done\n"@
    }
}

/// The fast-import stream answering an import of `wanted`, sent once every
/// stored bundle has been applied to the local repository.
pub fn import_stream(store: &RefsStore, wanted: &Vec<String>) -> (out: String)
    ensures
        out@ == spec_import_stream(store@, lines_view(wanted@)),
{
    if store.bundles.len() == 0 {
        return concat2("feature done\n", "done\n");
    }
    let ghost m = pairs_to_map(store@.refs);
    let ghost w = lines_view(wanted@);
    let mut out = "feature done\n".to_owned();
    let n = wanted.len();
    let mut i: usize = 0;
    while i < n
        invariant
            n == w.len(),
            w == lines_view(wanted@),
            m == store.refs@,
            i <= n,
            out@ == "feature done\n"@ + spec_resets(m, w.take(i as int)),
        decreases n - i,
    {
        assert(w.take(i + 1).drop_last() =~= w.take(i as int));
        assert(w.take(i + 1).last() == wanted[i as int]@);
        let r = &wanted[i];
        match store.refs.get(r.as_str()) {
            Some(sha) => {
                let a = concat2("reset ", r.as_str());
                let b = concat2(a.as_str(), "\nfrom ");
                let c = concat2(b.as_str(), sha.as_str());
                let d = concat2(c.as_str(), "\n\n");
                out.append(d.as_str());
                assert(out@ =~= "feature done\n"@ + spec_resets(m, w.take(i + 1)));
            },
            None => {
                assert(out@ =~= "feature done\n"@ + spec_resets(m, w.take(i + 1)));
            },
        }
        i = i + 1;
    }
    assert(w.take(n as int) =~= w);
    out.append("done\n");
    out
}


/// A batch of commands being collected.
pub enum Batch {
    /// No batch is open.
    Idle,
    /// `import` commands so far: the refs asked for, in order.
    Import(Vec<String>),
    /// `push` commands so far: source and destination refs, in order.
    Push(Vec<(String, String)>),
}

/// The mathematical value of a [`Batch`].
pub enum BatchView {
    Idle,
    Import(Seq<Seq<char>>),
    Push(Seq<(Seq<char>, Seq<char>)>),
}

/// The character view of a list of push requests.
pub open spec fn pushes_view(pushes: Seq<(String, String)>) -> Seq<(Seq<char>, Seq<char>)> {
    pushes.map_values(|p: (String, String)| (p.0@, p.1@))
}

impl View for Batch {
    type V = BatchView;

    open spec fn view(&self) -> BatchView {
        match self {
            Batch::Idle => BatchView::Idle,
            Batch::Import(refs) => BatchView::Import(lines_view(refs@)),
            Batch::Push(pushes) => BatchView::Push(pushes_view(pushes@)),
        }
    }
}

/// What the caller has to do after one command.
#[derive(Debug)]
pub enum SessionAction {
    /// Nothing: read the next command.
    ReadNext,
    /// Git closed the input: exit.
    Exit,
    /// Answer with [`capabilities_lines`].
    Capabilities,
    /// Load the refs store and answer with [`list_lines`].
    List { for_push: bool },
    /// Apply every stored bundle, then send [`import_stream`] for these refs.
    Import(Vec<String>),
    /// Run a push of these source/destination pairs with [`PushRun`].
    Push(Vec<(String, String)>),
    /// Answer `option <key> <value>` with `reply`.
    Option { key: String, value: String, reply: &'static str },
    /// Log and ignore a command with an unknown verb.
    IgnoreUnknown(String),
    /// Stop with an error: this command came in the middle of an import batch.
    UnexpectedInImport(Command),
    /// Stop with an error: this command came in the middle of a push batch.
    UnexpectedInPush(Command),
}

/// The mathematical value of a [`SessionAction`].
pub enum SessionActionView {
    ReadNext,
    Exit,
    Capabilities,
    List { for_push: bool },
    Import(Seq<Seq<char>>),
    Push(Seq<(Seq<char>, Seq<char>)>),
    Option { key: Seq<char>, value: Seq<char>, reply: Seq<char> },
    IgnoreUnknown(Seq<char>),
    UnexpectedInImport(CommandView),
    UnexpectedInPush(CommandView),
}

impl View for SessionAction {
    type V = SessionActionView;

    open spec fn view(&self) -> SessionActionView {
        match self {
            SessionAction::ReadNext => SessionActionView::ReadNext,
            SessionAction::Exit => SessionActionView::Exit,
            SessionAction::Capabilities => SessionActionView::Capabilities,
            SessionAction::List { for_push } => SessionActionView::List { for_push: *for_push },
            SessionAction::Import(refs) => SessionActionView::Import(lines_view(refs@)),
            SessionAction::Push(p) => SessionActionView::Push(pushes_view(p@)),
            SessionAction::Option { key, value, reply } => SessionActionView::Option {
                key: key@,
                value: value@,
                reply: reply@,
            },
            SessionAction::IgnoreUnknown(v) => SessionActionView::IgnoreUnknown(v@),
            SessionAction::UnexpectedInImport(c) => SessionActionView::UnexpectedInImport(c@),
            SessionAction::UnexpectedInPush(c) => SessionActionView::UnexpectedInPush(c@),
        }
    }
}

/// One step of the protocol loop: the open batch and the next command
/// (`None`: the input is closed) give the next batch and the action.
///
/// `import` and `push` commands open a batch or join the open batch of their
/// kind; a blank line or the end of input closes it and the whole batch is
/// handled at once. Any other command inside a batch is an error.
pub open spec fn spec_session_step(batch: BatchView, event: Option<CommandView>) -> (
    BatchView,
    SessionActionView,
) {
    match batch {
        BatchView::Idle => match event {
            None => (BatchView::Idle, SessionActionView::Exit),
            Some(CommandView::Blank) => (BatchView::Idle, SessionActionView::ReadNext),
            Some(CommandView::Capabilities) => (BatchView::Idle, SessionActionView::Capabilities),
            Some(CommandView::List) => (BatchView::Idle, SessionActionView::List { for_push: false }),
            Some(CommandView::ListForPush) => (
                BatchView::Idle,
                SessionActionView::List { for_push: true },
            ),
            Some(CommandView::Import(refs)) => (BatchView::Import(refs), SessionActionView::ReadNext),
            Some(CommandView::Push { src, dst }) => (
                BatchView::Push(seq![(src, dst)]),
                SessionActionView::ReadNext,
            ),
            Some(CommandView::Option(key, value)) => (
                BatchView::Idle,
                SessionActionView::Option { key, value, reply: spec_option_response(key) },
            ),
            Some(CommandView::Unknown(verb)) => (
                BatchView::Idle,
                SessionActionView::IgnoreUnknown(verb),
            ),
        },
        BatchView::Import(acc) => match event {
            Some(CommandView::Import(refs)) => (
                BatchView::Import(acc + refs),
                SessionActionView::ReadNext,
            ),
            None => (BatchView::Idle, SessionActionView::Import(acc)),
            Some(CommandView::Blank) => (BatchView::Idle, SessionActionView::Import(acc)),
            Some(other) => (BatchView::Idle, SessionActionView::UnexpectedInImport(other)),
        },
        BatchView::Push(acc) => match event {
            Some(CommandView::Push { src, dst }) => (
                BatchView::Push(acc.push((src, dst))),
                SessionActionView::ReadNext,
            ),
            None => (BatchView::Idle, SessionActionView::Push(acc)),
            Some(CommandView::Blank) => (BatchView::Idle, SessionActionView::Push(acc)),
            Some(other) => (BatchView::Idle, SessionActionView::UnexpectedInPush(other)),
        },
    }
}

/// The state of the protocol loop between two commands.
pub struct Session {
    batch: Batch,
}

impl Session {
    /// The batch that is open.
    pub closed spec fn batch(&self) -> BatchView {
        self.batch@
    }

    /// A session with no open batch.
    pub fn new() -> (s: Self)
        ensures
            s.batch() == BatchView::Idle,
    {
        Session { batch: Batch::Idle }
    }

    /// Take the next command (`None`: the input is closed) and say what to do.
    pub fn step(&mut self, event: Option<Command>) -> (act: SessionAction)
        ensures
            (final(self).batch(), act@) == spec_session_step(
                old(self).batch(),
                match event {
                    Some(c) => Some(c@),
                    None => None,
                },
            ),
    {
        let mut batch = Batch::Idle;
        std::mem::swap(&mut batch, &mut self.batch);
        match batch {
            Batch::Idle => match event {
                None => SessionAction::Exit,
                Some(Command::Blank) => SessionAction::ReadNext,
                Some(Command::Capabilities) => SessionAction::Capabilities,
                Some(Command::List) => SessionAction::List { for_push: false },
                Some(Command::ListForPush) => SessionAction::List { for_push: true },
                Some(Command::Import(refs)) => {
                    self.batch = Batch::Import(refs);
                    SessionAction::ReadNext
                },
                Some(Command::Push { src, dst }) => {
                    let mut pushes: Vec<(String, String)> = Vec::new();
                    pushes.push((src, dst));
                    assert(pushes_view(pushes@) =~= seq![(pushes@[0].0@, pushes@[0].1@)]);
                    self.batch = Batch::Push(pushes);
                    SessionAction::ReadNext
                },
                Some(Command::Option(key, value)) => {
                    let reply = option_response(key.as_str());
                    SessionAction::Option { key, value, reply }
                },
                Some(Command::Unknown(verb)) => SessionAction::IgnoreUnknown(verb),
            },
            Batch::Import(mut acc) => match event {
                Some(Command::Import(refs)) => {
                    let ghost a = lines_view(acc@);
                    let mut more = refs;
                    acc.append(&mut more);
                    assert(lines_view(acc@) =~= a + lines_view(refs@));
                    self.batch = Batch::Import(acc);
                    SessionAction::ReadNext
                },
                None => SessionAction::Import(acc),
                Some(Command::Blank) => SessionAction::Import(acc),
                Some(other) => SessionAction::UnexpectedInImport(other),
            },
            Batch::Push(mut acc) => match event {
                Some(Command::Push { src, dst }) => {
                    let ghost a = pushes_view(acc@);
                    acc.push((src, dst));
                    assert(pushes_view(acc@) =~= a.push((src@, dst@)));
                    self.batch = Batch::Push(acc);
                    SessionAction::ReadNext
                },
                None => SessionAction::Push(acc),
                Some(Command::Blank) => SessionAction::Push(acc),
                Some(other) => SessionAction::UnexpectedInPush(other),
            },
        }
    }
}

/// The batches and actions that a sequence of commands leads to.
pub open spec fn spec_session_run(batch: BatchView, events: Seq<Option<CommandView>>) -> (
    BatchView,
    Seq<SessionActionView>,
)
    decreases events.len(),
{
    if events.len() == 0 {
        (batch, Seq::empty())
    } else {
        let (b, a) = spec_session_step(batch, events[0]);
        let (fin, rest) = spec_session_run(b, events.drop_first());
        (fin, seq![a] + rest)
    }
}

/// The `import <ref>` commands for the refs `refs`, one per ref.
pub open spec fn import_commands(refs: Seq<Seq<char>>) -> Seq<Option<CommandView>> {
    refs.map_values(|r: Seq<char>| Some(CommandView::Import(seq![r])))
}

/// The `push <src>:<dst>` commands for the pairs `pushes`, one per pair.
pub open spec fn push_commands(pushes: Seq<(Seq<char>, Seq<char>)>) -> Seq<Option<CommandView>> {
    pushes.map_values(|p: (Seq<char>, Seq<char>)| Some(CommandView::Push { src: p.0, dst: p.1 }))
}

proof fn lemma_import_batch_from(acc: Seq<Seq<char>>, refs: Seq<Seq<char>>)
    ensures
        spec_session_run(BatchView::Import(acc), import_commands(refs).push(Some(CommandView::Blank)))
            == (
            BatchView::Idle,
            Seq::new(refs.len(), |i: int| SessionActionView::ReadNext).push(
                SessionActionView::Import(acc + refs),
            ),
        ),
    decreases refs.len(),
{
    let evs = import_commands(refs).push(Some(CommandView::Blank));
    if refs.len() == 0 {
        assert(evs.drop_first() =~= Seq::<Option<CommandView>>::empty());
        assert(acc + refs =~= acc);
        assert(evs[0] == Some(CommandView::Blank));
        assert(spec_session_run(BatchView::Idle, evs.drop_first()) == (
            BatchView::Idle,
            Seq::<SessionActionView>::empty(),
        ));
        assert(seq![SessionActionView::Import(acc)] + Seq::<SessionActionView>::empty()
            =~= seq![SessionActionView::Import(acc)]);
        assert(Seq::new(refs.len(), |i: int| SessionActionView::ReadNext).push(
            SessionActionView::Import(acc + refs),
        ) =~= seq![SessionActionView::Import(acc)]);
    } else {
        let r = refs[0];
        assert(evs[0] == Some(CommandView::Import(seq![r])));
        assert(evs.drop_first() =~= import_commands(refs.drop_first()).push(
            Some(CommandView::Blank),
        ));
        lemma_import_batch_from(acc + seq![r], refs.drop_first());
        assert(acc + seq![r] + refs.drop_first() =~= acc + refs);
        assert(seq![SessionActionView::ReadNext] + Seq::new(
            (refs.len() - 1) as nat,
            |i: int| SessionActionView::ReadNext,
        ).push(SessionActionView::Import(acc + refs)) =~= Seq::new(
            refs.len(),
            |i: int| SessionActionView::ReadNext,
        ).push(SessionActionView::Import(acc + refs)));
    }
}

/// A batch of `import` commands closed by a blank line is handled as one
/// import of all its refs, in the order Git sent them; nothing else happens
/// before the batch closes.
pub proof fn lemma_import_batch(refs: Seq<Seq<char>>)
    requires
        refs.len() > 0,
    ensures
        spec_session_run(BatchView::Idle, import_commands(refs).push(Some(CommandView::Blank))) == (
            BatchView::Idle,
            Seq::new(refs.len(), |i: int| SessionActionView::ReadNext).push(
                SessionActionView::Import(refs),
            ),
        ),
{
    let evs = import_commands(refs).push(Some(CommandView::Blank));
    assert(evs[0] == Some(CommandView::Import(seq![refs[0]])));
    assert(evs.drop_first() =~= import_commands(refs.drop_first()).push(Some(CommandView::Blank)));
    lemma_import_batch_from(seq![refs[0]], refs.drop_first());
    assert(seq![refs[0]] + refs.drop_first() =~= refs);
    assert(seq![SessionActionView::ReadNext] + Seq::new(
        (refs.len() - 1) as nat,
        |i: int| SessionActionView::ReadNext,
    ).push(SessionActionView::Import(refs)) =~= Seq::new(
        refs.len(),
        |i: int| SessionActionView::ReadNext,
    ).push(SessionActionView::Import(refs)));
}

proof fn lemma_push_batch_from(
    acc: Seq<(Seq<char>, Seq<char>)>,
    pushes: Seq<(Seq<char>, Seq<char>)>,
)
    ensures
        spec_session_run(BatchView::Push(acc), push_commands(pushes).push(Some(CommandView::Blank)))
            == (
            BatchView::Idle,
            Seq::new(pushes.len(), |i: int| SessionActionView::ReadNext).push(
                SessionActionView::Push(acc + pushes),
            ),
        ),
    decreases pushes.len(),
{
    let evs = push_commands(pushes).push(Some(CommandView::Blank));
    if pushes.len() == 0 {
        assert(evs.drop_first() =~= Seq::<Option<CommandView>>::empty());
        assert(acc + pushes =~= acc);
        assert(evs[0] == Some(CommandView::Blank));
        assert(spec_session_run(BatchView::Idle, evs.drop_first()) == (
            BatchView::Idle,
            Seq::<SessionActionView>::empty(),
        ));
        assert(seq![SessionActionView::Push(acc)] + Seq::<SessionActionView>::empty()
            =~= seq![SessionActionView::Push(acc)]);
        assert(Seq::new(pushes.len(), |i: int| SessionActionView::ReadNext).push(
            SessionActionView::Push(acc + pushes),
        ) =~= seq![SessionActionView::Push(acc)]);
    } else {
        let p = pushes[0];
        assert(evs[0] == Some(CommandView::Push { src: p.0, dst: p.1 }));
        assert(evs.drop_first() =~= push_commands(pushes.drop_first()).push(
            Some(CommandView::Blank),
        ));
        lemma_push_batch_from(acc.push(p), pushes.drop_first());
        assert(acc.push(p) + pushes.drop_first() =~= acc + pushes);
        assert(seq![SessionActionView::ReadNext] + Seq::new(
            (pushes.len() - 1) as nat,
            |i: int| SessionActionView::ReadNext,
        ).push(SessionActionView::Push(acc + pushes)) =~= Seq::new(
            pushes.len(),
            |i: int| SessionActionView::ReadNext,
        ).push(SessionActionView::Push(acc + pushes)));
    }
}

/// A batch of `push` commands closed by a blank line is handled as one push
/// of all its pairs, in the order Git sent them.
pub proof fn lemma_push_batch(pushes: Seq<(Seq<char>, Seq<char>)>)
    requires
        pushes.len() > 0,
    ensures
        spec_session_run(BatchView::Idle, push_commands(pushes).push(Some(CommandView::Blank))) == (
            BatchView::Idle,
            Seq::new(pushes.len(), |i: int| SessionActionView::ReadNext).push(
                SessionActionView::Push(pushes),
            ),
        ),
{
    let evs = push_commands(pushes).push(Some(CommandView::Blank));
    let p = pushes[0];
    assert(evs[0] == Some(CommandView::Push { src: p.0, dst: p.1 }));
    assert(evs.drop_first() =~= push_commands(pushes.drop_first()).push(Some(CommandView::Blank)));
    lemma_push_batch_from(seq![p], pushes.drop_first());
    assert(seq![p] + pushes.drop_first() =~= pushes);
    assert(seq![SessionActionView::ReadNext] + Seq::new(
        (pushes.len() - 1) as nat,
        |i: int| SessionActionView::ReadNext,
    ).push(SessionActionView::Push(pushes)) =~= Seq::new(
        pushes.len(),
        |i: int| SessionActionView::ReadNext,
    ).push(SessionActionView::Push(pushes)));
}


proof fn lemma_lines_view_push(v: Seq<String>, x: String)
    ensures
        lines_view(v.push(x)) == lines_view(v).push(x@),
{
    assert(lines_view(v.push(x)) =~= lines_view(v).push(x@));
}

proof fn lemma_take_map_push<A, B>(s: Seq<A>, f: spec_fn(A) -> B, i: int)
    requires
        0 <= i < s.len(),
    ensures
        s.take(i + 1).map_values(f) == s.take(i).map_values(f).push(f(s[i])),
{
    assert(s.take(i + 1).map_values(f) =~= s.take(i).map_values(f).push(f(s[i])));
}

/// What a push run waits for.
#[derive(Debug, Clone, Copy, PartialEq, Eq, Structural)]
pub enum PushStage {
    /// The SHA-1 of the current push's local ref.
    Resolving,
    /// Whether the stored SHA-1 of the current destination is an ancestor of the new one.
    CheckingAncestry,
    /// A reply line about the current push to be written.
    Replying,
    /// A bundle of the accepted refs to be created.
    Bundling,
    /// The bundle to be uploaded.
    Uploading,
    /// The updated refs store to be saved.
    Saving,
    /// Nothing: the run is over.
    Finished,
}

/// The next thing the caller has to do in a push.
#[derive(Debug)]
pub enum PushAction {
    /// Resolve this local ref to a SHA-1 and hand it to [`PushRun::on_resolved`].
    ResolveRef(String),
    /// Find out whether `old` is an ancestor of `new` and hand the answer to
    /// [`PushRun::on_ancestry`].
    CheckAncestor { old: String, new: String },
    /// Write this line, then call [`PushRun::resume`].
    Reply(String),
    /// Create a bundle of these refs (a `^<sha>` excludes what the remote
    /// already has), name it, and hand the name to [`PushRun::on_bundle_created`].
    CreateBundle(Vec<String>),
    /// Upload the bundle under this key, then call [`PushRun::on_uploaded`].
    Upload(String),
    /// Save [`PushRun::store`], then call [`PushRun::on_saved`].
    SaveRefs,
    /// Write these lines; the push is done.
    Finish(Vec<String>),
}

/// The mathematical value of a [`PushAction`].
pub enum PushActionView {
    ResolveRef(Seq<char>),
    CheckAncestor { old: Seq<char>, new: Seq<char> },
    Reply(Seq<char>),
    CreateBundle(Seq<Seq<char>>),
    Upload(Seq<char>),
    SaveRefs,
    Finish(Seq<Seq<char>>),
}

impl View for PushAction {
    type V = PushActionView;

    open spec fn view(&self) -> PushActionView {
        match self {
            PushAction::ResolveRef(r) => PushActionView::ResolveRef(r@),
            PushAction::CheckAncestor { old, new } => PushActionView::CheckAncestor {
                old: old@,
                new: new@,
            },
            PushAction::Reply(l) => PushActionView::Reply(l@),
            PushAction::CreateBundle(args) => PushActionView::CreateBundle(lines_view(args@)),
            PushAction::Upload(k) => PushActionView::Upload(k@),
            PushAction::SaveRefs => PushActionView::SaveRefs,
            PushAction::Finish(lines) => PushActionView::Finish(lines_view(lines@)),
        }
    }
}

/// A push source starting with `+` is forced.
pub open spec fn is_forced(src: Seq<char>) -> bool {
    src.len() > 0 && src[0] == '+'
}

/// The local ref of a push source, without the `+` of a forced push.
pub open spec fn src_ref_of(src: Seq<char>) -> Seq<char> {
    if is_forced(src) {
        src.skip(1)
    } else {
        src
    }
}

/// The reply to a push that would delete `dst`.
pub open spec fn deletion_reply(dst: Seq<char>) -> Seq<char> {
    "error "@ + dst + " deletion not supported"@
}

/// The reply to a push to `dst` that is not a fast-forward.
pub open spec fn non_ff_reply(dst: Seq<char>) -> Seq<char> {
    "error "@ + dst + " non-fast-forward"@
}

/// The refs a bundle is made of: the accepted local refs, then `^<sha>` for
/// every SHA-1 the store already holds, so that bundles stay incremental.
pub open spec fn bundle_args(
    src_refs: Seq<Seq<char>>,
    refs: Seq<(Seq<char>, Seq<char>)>,
) -> Seq<Seq<char>> {
    src_refs + refs.map_values(|p: (Seq<char>, Seq<char>)| "^"@ + p.1)
}

/// The closing reply of a push: `ok <dst>` for each updated ref, then the
/// blank line.
pub open spec fn ok_lines(updated: Seq<(Seq<char>, Seq<char>)>) -> Seq<Seq<char>> {
    updated.map_values(|p: (Seq<char>, Seq<char>)| "ok "@ + p.0) + seq![Seq::empty()]
}

/// Stage and action on reaching push `i`: a deletion is refused, another
/// push has its local ref resolved; past the last push, nothing accepted
/// ends the run with the blank line, else the bundle is made.
pub open spec fn push_advance(
    pushes: Seq<(Seq<char>, Seq<char>)>,
    i: int,
    updated: Seq<(Seq<char>, Seq<char>)>,
    src_refs: Seq<Seq<char>>,
    refs: Seq<(Seq<char>, Seq<char>)>,
) -> (PushStage, PushActionView) {
    if i >= pushes.len() {
        if updated.len() == 0 {
            (PushStage::Finished, PushActionView::Finish(seq![Seq::empty()]))
        } else {
            (PushStage::Bundling, PushActionView::CreateBundle(bundle_args(src_refs, refs)))
        }
    } else if pushes[i].0.len() == 0 {
        (PushStage::Replying, PushActionView::Reply(deletion_reply(pushes[i].1)))
    } else {
        (PushStage::Resolving, PushActionView::ResolveRef(src_ref_of(pushes[i].0)))
    }
}

/// The decisions of one push batch.
pub struct PushRun {
    store: RefsStore,
    pushes: Vec<(String, String)>,
    index: usize,
    stage: PushStage,
    sha: String,
    updated: StringMap,
    src_refs: Vec<String>,
    key: String,
}

impl PushRun {
    /// The refs store: as loaded until the bundle is uploaded, updated after.
    pub closed spec fn store_view(&self) -> RefsStoreView {
        self.store@
    }

    /// The source/destination pairs of the batch.
    pub closed spec fn pushes(&self) -> Seq<(Seq<char>, Seq<char>)> {
        pushes_view(self.pushes@)
    }

    /// Position of the current push.
    pub closed spec fn index(&self) -> int {
        self.index as int
    }

    /// What the run waits for.
    pub closed spec fn stage(&self) -> PushStage {
        self.stage
    }

    /// The SHA-1 of the current push's local ref, once resolved.
    pub closed spec fn sha(&self) -> Seq<char> {
        self.sha@
    }

    /// Accepted destinations and their new SHA-1s, in first-accepted order.
    pub closed spec fn updated(&self) -> Seq<(Seq<char>, Seq<char>)> {
        self.updated.pairs()
    }

    /// Local refs of the accepted pushes, in order.
    pub closed spec fn src_refs(&self) -> Seq<Seq<char>> {
        lines_view(self.src_refs@)
    }

    /// Key of the uploaded bundle, once named.
    pub closed spec fn key(&self) -> Seq<char> {
        self.key@
    }

    /// The run's invariant.
    pub closed spec fn wf(&self) -> bool {
        &&& self.index <= self.pushes@.len()
        &&& (self.stage == PushStage::Resolving || self.stage == PushStage::CheckingAncestry
            || self.stage == PushStage::Replying) ==> self.index < self.pushes@.len()
        &&& (self.stage == PushStage::Resolving || self.stage == PushStage::CheckingAncestry)
            ==> self.pushes()[self.index as int].0.len() > 0
        &&& keys_unique(self.updated())
    }

    fn advance(&mut self, i: usize) -> (act: PushAction)
        requires
            i <= old(self).pushes@.len(),
            keys_unique(old(self).updated()),
        ensures
            final(self).wf(),
            final(self).index() == i,
            final(self).store_view() == old(self).store_view(),
            final(self).pushes() == old(self).pushes(),
            final(self).updated() == old(self).updated(),
            final(self).src_refs() == old(self).src_refs(),
            final(self).sha() == old(self).sha(),
            final(self).key() == old(self).key(),
            (final(self).stage(), act@) == push_advance(
                old(self).pushes(),
                i as int,
                old(self).updated(),
                old(self).src_refs(),
                old(self).store_view().refs,
            ),
    {
        self.index = i;
        let n = self.pushes.len();
        if i >= n {
            if self.updated.len() == 0 {
                self.stage = PushStage::Finished;
                let mut lines: Vec<String> = Vec::new();
                lines.push(String::new());
                assert(lines_view(lines@) =~= seq![Seq::<char>::empty()]);
                return PushAction::Finish(lines);
            }
            self.stage = PushStage::Bundling;
            let args = self.bundle_arguments();
            return PushAction::CreateBundle(args);
        }
        let (src, dst) = &self.pushes[i];
        assert(self.pushes()[i as int] == (src@, dst@));
        if src.unicode_len() == 0 {
            self.stage = PushStage::Replying;
            let a = concat2("error ", dst.as_str());
            PushAction::Reply(concat2(a.as_str(), " deletion not supported"))
        } else {
            self.stage = PushStage::Resolving;
            PushAction::ResolveRef(local_ref(src.as_str()))
        }
    }

    fn bundle_arguments(&self) -> (args: Vec<String>)
        ensures
            lines_view(args@) == bundle_args(self.src_refs(), self.store_view().refs),
    {
        let mut args: Vec<String> = Vec::new();
        let n = self.src_refs.len();
        let mut i: usize = 0;
        while i < n
            invariant
                n == self.src_refs@.len(),
                i <= n,
                lines_view(args@) == self.src_refs().take(i as int),
            decreases n - i,
        {
            let ghost before = args@;
            let x = self.src_refs[i].clone();
            args.push(x);
            proof {
                lemma_lines_view_push(before, x);
                assert(self.src_refs().take(i + 1) =~= self.src_refs().take(i as int).push(
                    self.src_refs()[i as int],
                ));
            }
            i = i + 1;
        }
        assert(self.src_refs().take(n as int) =~= self.src_refs());
        let ghost refs = self.store_view().refs;
        let m = self.store.refs.len();
        let mut j: usize = 0;
        while j < m
            invariant
                m == refs.len(),
                refs == self.store_view().refs,
                j <= m,
                lines_view(args@) == self.src_refs() + refs.take(j as int).map_values(
                    |p: (Seq<char>, Seq<char>)| "^"@ + p.1,
                ),
            decreases m - j,
        {
            let (_, sha) = self.store.refs.entry(j);
            let x = concat2("^", sha.as_str());
            let ghost before = args@;
            args.push(x);
            proof {
                lemma_lines_view_push(before, x);
                lemma_take_map_push(refs, |p: (Seq<char>, Seq<char>)| "^"@ + p.1, j as int);
                assert(self.src_refs() + refs.take(j + 1).map_values(
                    |p: (Seq<char>, Seq<char>)| "^"@ + p.1,
                ) =~= (self.src_refs() + refs.take(j as int).map_values(
                    |p: (Seq<char>, Seq<char>)| "^"@ + p.1,
                )).push(x@));
            }
            j = j + 1;
        }
        assert(refs.take(m as int) =~= refs);
        args
    }

    /// Begin a push of the pairs `pushes` against the loaded `store`.
    pub fn start(store: RefsStore, pushes: Vec<(String, String)>) -> (r: (PushRun, PushAction))
        ensures
            r.0.wf(),
            r.0.store_view() == store@,
            r.0.pushes() == pushes_view(pushes@),
            r.0.index() == 0,
            r.0.updated() == Seq::<(Seq<char>, Seq<char>)>::empty(),
            r.0.src_refs() == Seq::<Seq<char>>::empty(),
            (r.0.stage(), r.1@) == push_advance(
                pushes_view(pushes@),
                0,
                Seq::empty(),
                Seq::empty(),
                store@.refs,
            ),
    {
        let mut run = PushRun {
            store,
            pushes,
            index: 0,
            stage: PushStage::Finished,
            sha: String::new(),
            updated: StringMap::new(),
            src_refs: Vec::new(),
            key: String::new(),
        };
        assert(run.src_refs() =~= Seq::<Seq<char>>::empty());
        let act = run.advance(0);
        (run, act)
    }

    /// What the run waits for.
    pub fn current_stage(&self) -> (s: PushStage)
        ensures
            s == self.stage(),
    {
        self.stage
    }

    /// The refs store (to save when asked to).
    pub fn store(&self) -> (s: &RefsStore)
        ensures
            s@ == self.store_view(),
    {
        &self.store
    }

    fn accept(&mut self, sha: String) -> (act: PushAction)
        requires
            old(self).wf(),
            old(self).stage() == PushStage::Resolving || old(self).stage()
                == PushStage::CheckingAncestry,
        ensures
            final(self).wf(),
            ({
                let (src, dst) = old(self).pushes()[old(self).index()];
                let updated = pairs_insert(old(self).updated(), dst, sha@);
                let src_refs = old(self).src_refs().push(src_ref_of(src));
                &&& final(self).updated() == updated
                &&& final(self).src_refs() == src_refs
                &&& final(self).index() == old(self).index() + 1
                &&& (final(self).stage(), act@) == push_advance(
                    old(self).pushes(),
                    old(self).index() + 1,
                    updated,
                    src_refs,
                    old(self).store_view().refs,
                )
            }),
            final(self).store_view() == old(self).store_view(),
            final(self).pushes() == old(self).pushes(),
            final(self).key() == old(self).key(),
    {
        let i = self.index;
        let n = self.pushes.len();
        let (src, dst) = &self.pushes[i];
        assert(self.pushes()[i as int] == (src@, dst@));
        let r = local_ref(src.as_str());
        let d = dst.clone();
        proof {
            crate::strmap::lemma_pairs_insert(self.updated(), d@, sha@);
        }
        self.updated.insert(d, sha);
        let ghost before = self.src_refs();
        self.src_refs.push(r);
        assert(self.src_refs() =~= before.push(src_ref_of(src@)));
        self.advance(i + 1)
    }

    /// The SHA-1 that the current push's local ref resolves to.
    ///
    /// A push to a stored ref that is not forced needs the ancestry check;
    /// otherwise the push is accepted.
    pub fn on_resolved(&mut self, sha: String) -> (act: PushAction)
        requires
            old(self).wf(),
            old(self).stage() == PushStage::Resolving,
        ensures
            final(self).wf(),
            final(self).store_view() == old(self).store_view(),
            final(self).pushes() == old(self).pushes(),
            ({
                let (src, dst) = old(self).pushes()[old(self).index()];
                let stored = pairs_to_map(old(self).store_view().refs);
                if stored.contains_key(dst) && !is_forced(src) {
                    &&& final(self).stage() == PushStage::CheckingAncestry
                    &&& act@ == PushActionView::CheckAncestor { old: stored[dst], new: sha@ }
                    &&& final(self).sha() == sha@
                    &&& final(self).index() == old(self).index()
                    &&& final(self).updated() == old(self).updated()
                    &&& final(self).src_refs() == old(self).src_refs()
                } else {
                    let updated = pairs_insert(old(self).updated(), dst, sha@);
                    let src_refs = old(self).src_refs().push(src_ref_of(src));
                    &&& final(self).updated() == updated
                    &&& final(self).src_refs() == src_refs
                    &&& final(self).index() == old(self).index() + 1
                    &&& (final(self).stage(), act@) == push_advance(
                        old(self).pushes(),
                        old(self).index() + 1,
                        updated,
                        src_refs,
                        old(self).store_view().refs,
                    )
                }
            }),
    {
        let i = self.index;
        let (src, dst) = &self.pushes[i];
        assert(self.pushes()[i as int] == (src@, dst@));
        let forced = starts_with_plus(src.as_str());
        match self.store.refs.get(dst.as_str()) {
            Some(old_sha) => {
                if !forced {
                    let o = old_sha.clone();
                    self.sha = sha.clone();
                    self.stage = PushStage::CheckingAncestry;
                    return PushAction::CheckAncestor { old: o, new: sha };
                }
            },
            None => {},
        }
        self.accept(sha)
    }

    /// Whether the stored SHA-1 of the current destination is an ancestor
    /// of the resolved one: a fast-forward is accepted, anything else is
    /// refused with a reply.
    pub fn on_ancestry(&mut self, is_ancestor: bool) -> (act: PushAction)
        requires
            old(self).wf(),
            old(self).stage() == PushStage::CheckingAncestry,
        ensures
            final(self).wf(),
            final(self).store_view() == old(self).store_view(),
            final(self).pushes() == old(self).pushes(),
            ({
                let (src, dst) = old(self).pushes()[old(self).index()];
                if is_ancestor {
                    let updated = pairs_insert(old(self).updated(), dst, old(self).sha());
                    let src_refs = old(self).src_refs().push(src_ref_of(src));
                    &&& final(self).updated() == updated
                    &&& final(self).src_refs() == src_refs
                    &&& final(self).index() == old(self).index() + 1
                    &&& (final(self).stage(), act@) == push_advance(
                        old(self).pushes(),
                        old(self).index() + 1,
                        updated,
                        src_refs,
                        old(self).store_view().refs,
                    )
                } else {
                    &&& final(self).stage() == PushStage::Replying
                    &&& act@ == PushActionView::Reply(non_ff_reply(dst))
                    &&& final(self).index() == old(self).index()
                    &&& final(self).updated() == old(self).updated()
                    &&& final(self).src_refs() == old(self).src_refs()
                }
            }),
    {
        if is_ancestor {
            let sha = self.sha.clone();
            self.accept(sha)
        } else {
            let i = self.index;
            let (_, dst) = &self.pushes[i];
            assert(self.pushes()[i as int].1 == dst@);
            let a = concat2("error ", dst.as_str());
            self.stage = PushStage::Replying;
            PushAction::Reply(concat2(a.as_str(), " non-fast-forward"))
        }
    }

    /// The reply about the current push has been written: go on with the next.
    pub fn resume(&mut self) -> (act: PushAction)
        requires
            old(self).wf(),
            old(self).stage() == PushStage::Replying,
        ensures
            final(self).wf(),
            final(self).store_view() == old(self).store_view(),
            final(self).pushes() == old(self).pushes(),
            final(self).updated() == old(self).updated(),
            final(self).src_refs() == old(self).src_refs(),
            final(self).index() == old(self).index() + 1,
            (final(self).stage(), act@) == push_advance(
                old(self).pushes(),
                old(self).index() + 1,
                old(self).updated(),
                old(self).src_refs(),
                old(self).store_view().refs,
            ),
    {
        let i = self.index;
        let _n = self.pushes.len();
        self.advance(i + 1)
    }

    /// The bundle has been created under the name `name`: upload it.
    pub fn on_bundle_created(&mut self, name: &str) -> (act: PushAction)
        requires
            old(self).wf(),
            old(self).stage() == PushStage::Bundling,
        ensures
            final(self).wf(),
            final(self).store_view() == old(self).store_view(),
            final(self).updated() == old(self).updated(),
            final(self).key() == spec_bundle_key(name@),
            final(self).stage() == PushStage::Uploading,
            act@ == PushActionView::Upload(spec_bundle_key(name@)),
    {
        let k = bundle_key(name);
        self.key = k.clone();
        self.stage = PushStage::Uploading;
        PushAction::Upload(k)
    }

    /// The bundle has been uploaded: record it and the updated refs.
    ///
    /// The store then holds every accepted destination at its new SHA-1,
    /// every other ref as before, and the new bundle after the earlier ones.
    pub fn on_uploaded(&mut self) -> (act: PushAction)
        requires
            old(self).wf(),
            old(self).stage() == PushStage::Uploading,
        ensures
            final(self).wf(),
            final(self).updated() == old(self).updated(),
            final(self).stage() == PushStage::Saving,
            act@ == PushActionView::SaveRefs,
            final(self).store_view().refs == apply_updates(
                old(self).store_view().refs,
                old(self).updated(),
            ),
            final(self).store_view().bundles == old(self).store_view().bundles.push(
                old(self).key(),
            ),
            pairs_to_map(final(self).store_view().refs) == pairs_to_map(
                old(self).store_view().refs,
            ).union_prefer_right(pairs_to_map(old(self).updated())),
    {
        let ghost refs0 = self.store@.refs;
        let ghost upd = self.updated();
        let _ = self.store.refs.len();
        proof {
            lemma_apply_updates(refs0, upd);
        }
        let n = self.updated.len();
        let mut i: usize = 0;
        while i < n
            invariant
                n == upd.len(),
                upd == self.updated(),
                i <= n,
                self.store@.refs == apply_updates(refs0, upd.take(i as int)),
                self.store@.bundles == old(self).store@.bundles,
                self.index <= self.pushes@.len(),
                self.stage == PushStage::Uploading,
                self.key@ == old(self).key@,
                keys_unique(self.updated()),
            decreases n - i,
        {
            let (dst, sha) = self.updated.entry(i);
            let d = dst.clone();
            let s = sha.clone();
            assert(upd.take(i + 1).drop_last() =~= upd.take(i as int));
            assert(upd.take(i + 1).last() == (d@, s@));
            self.store.refs.insert(d, s);
            i = i + 1;
        }
        assert(upd.take(n as int) =~= upd);
        let ghost bundles0 = self.store@.bundles;
        self.store.bundles.push(self.key.clone());
        assert(self.store@.bundles =~= bundles0.push(self.key@));
        self.stage = PushStage::Saving;
        PushAction::SaveRefs
    }

    /// The refs store has been saved: report each updated ref.
    pub fn on_saved(&mut self) -> (act: PushAction)
        requires
            old(self).wf(),
            old(self).stage() == PushStage::Saving,
        ensures
            final(self).wf(),
            final(self).store_view() == old(self).store_view(),
            final(self).stage() == PushStage::Finished,
            act@ == PushActionView::Finish(ok_lines(old(self).updated())),
    {
        let ghost upd = self.updated();
        let n = self.updated.len();
        let mut lines: Vec<String> = Vec::new();
        let mut i: usize = 0;
        while i < n
            invariant
                n == upd.len(),
                upd == self.updated(),
                i <= n,
                lines_view(lines@) == upd.take(i as int).map_values(
                    |p: (Seq<char>, Seq<char>)| "ok "@ + p.0,
                ),
            decreases n - i,
        {
            let (dst, _) = self.updated.entry(i);
            let x = concat2("ok ", dst.as_str());
            let ghost before = lines@;
            lines.push(x);
            proof {
                lemma_lines_view_push(before, x);
                lemma_take_map_push(upd, |p: (Seq<char>, Seq<char>)| "ok "@ + p.0, i as int);
            }
            i = i + 1;
        }
        assert(upd.take(n as int) =~= upd);
        lines.push(String::new());
        assert(lines_view(lines@) =~= ok_lines(upd));
        self.stage = PushStage::Finished;
        PushAction::Finish(lines)
    }
}

/// Once a push has recorded its updates, listing the store reports every
/// updated ref at its new SHA-1.
pub proof fn lemma_pushed_ref_is_listed(
    refs: Seq<(Seq<char>, Seq<char>)>,
    updates: Seq<(Seq<char>, Seq<char>)>,
    name: Seq<char>,
)
    requires
        keys_unique(refs),
        pairs_to_map(updates).contains_key(name),
    ensures
        spec_list_lines(apply_updates(refs, updates)).contains(
            pairs_to_map(updates)[name] + " "@ + name,
        ),
{
    let r = apply_updates(refs, updates);
    lemma_apply_updates(refs, updates);
    crate::strmap::lemma_pairs_to_map_dom(r, name);
    let i = choose|i: int| 0 <= i < r.len() && r[i].0 == name;
    crate::strmap::lemma_pairs_to_map_at(r, i);
    let lines = spec_list_lines(r);
    let f = |p: (Seq<char>, Seq<char>)| p.1 + " "@ + p.0;
    assert(lines[i] == f(r[i]));
    assert(lines[i] == pairs_to_map(updates)[name] + " "@ + name);
}

/// Once a push has recorded its updates and its bundle, a fetch of an
/// updated ref resets it to its new SHA-1.
pub proof fn lemma_pushed_ref_is_fetched(
    refs: Seq<(Seq<char>, Seq<char>)>,
    bundles: Seq<Seq<char>>,
    key: Seq<char>,
    updates: Seq<(Seq<char>, Seq<char>)>,
    name: Seq<char>,
)
    requires
        keys_unique(refs),
        pairs_to_map(updates).contains_key(name),
    ensures
        spec_import_stream(
            RefsStoreView { refs: apply_updates(refs, updates), bundles: bundles.push(key) },
            seq![name],
        ) == "feature done\n"@ + ("reset "@ + name + "\nfrom "@ + pairs_to_map(updates)[name]
            + "\n\n"@) + "done\n"@,
{
    lemma_apply_updates(refs, updates);
    let m = pairs_to_map(apply_updates(refs, updates));
    assert(seq![name].drop_last() =~= Seq::<Seq<char>>::empty());
    assert(seq![name].last() == name);
    assert(m.contains_key(name));
    assert(spec_resets(m, Seq::<Seq<char>>::empty()) == Seq::<char>::empty());
    assert(spec_resets(m, seq![name]) =~= "reset "@ + name + "\nfrom "@ + m[name] + "\n\n"@);
}

/// Only `verbosity` is supported: the reply is `ok` exactly for it, and
/// `unsupported` for every other option (so Git never believes that
/// `dry-run` or any other option is honoured).
pub proof fn lemma_option_response(key: Seq<char>)
    ensures
        spec_option_response(key) == "ok"@ <==> key == "verbosity"@,
        key != "verbosity"@ ==> spec_option_response(key) == "unsupported"@,
{
    reveal_strlit("ok");
    reveal_strlit("unsupported");
    assert("ok"@.len() != "unsupported"@.len());
}

/// Whether some stored pair has the name `name`.
pub open spec fn stores_ref(refs: Seq<(Seq<char>, Seq<char>)>, name: Seq<char>) -> bool {
    exists|i: int| 0 <= i < refs.len() && refs[i].0 == name
}

/// The reply to `list` names every stored ref with its SHA-1, in store
/// order; then points `HEAD` at `refs/heads/main` when that is stored, else
/// at `refs/heads/master` when that is stored, else at the first stored ref;
/// and ends with a blank line. For an empty store it is the blank line alone.
pub proof fn lemma_list_lines_shape(refs: Seq<(Seq<char>, Seq<char>)>)
    ensures
        refs.len() == 0 ==> spec_list_lines(refs) == seq![Seq::<char>::empty()],
        refs.len() > 0 ==> spec_list_lines(refs).len() == refs.len() + 2,
        refs.len() > 0 ==> forall|i: int|
            0 <= i < refs.len() ==> #[trigger] spec_list_lines(refs)[i] == refs[i].1 + " "@
                + refs[i].0,
        refs.len() > 0 ==> spec_list_lines(refs)[refs.len() as int] == "@"@ + (if stores_ref(
            refs,
            "refs/heads/main"@,
        ) {
            "refs/heads/main"@
        } else if stores_ref(refs, "refs/heads/master"@) {
            "refs/heads/master"@
        } else {
            refs[0].0
        }) + " HEAD"@,
        refs.len() > 0 ==> spec_list_lines(refs)[refs.len() + 1int] == Seq::<char>::empty(),
{
    crate::strmap::lemma_pairs_to_map_dom(refs, "refs/heads/main"@);
    crate::strmap::lemma_pairs_to_map_dom(refs, "refs/heads/master"@);
    if refs.len() > 0 {
        let lines = spec_list_lines(refs);
        let named = refs.map_values(|p: (Seq<char>, Seq<char>)| p.1 + " "@ + p.0);
        assert(spec_head(refs) is Some);
        let h = spec_head(refs)->0;
        assert(lines =~= named + seq!["@"@ + h + " HEAD"@] + seq![Seq::<char>::empty()]);
        assert forall|i: int| 0 <= i < refs.len() implies #[trigger] lines[i] == refs[i].1 + " "@
            + refs[i].0 by {
            assert(lines[i] == named[i]);
        }
        assert(lines[refs.len() as int] == "@"@ + h + " HEAD"@);
    }
}

/// The block that resets `name` to `sha` in a fast-import stream.
pub open spec fn reset_block(name: Seq<char>, sha: Seq<char>) -> Seq<char> {
    "reset "@ + name + "\nfrom "@ + sha + "\n\n"@
}

/// Whether `t` occurs in `s` as a contiguous part.
pub open spec fn has_infix(s: Seq<char>, t: Seq<char>) -> bool {
    exists|p: int| 0 <= p && p + t.len() <= s.len() && #[trigger] s.subrange(p, p + t.len()) == t
}

proof fn lemma_resets_infix(m: Map<Seq<char>, Seq<char>>, wanted: Seq<Seq<char>>, i: int)
    requires
        0 <= i < wanted.len(),
        m.contains_key(wanted[i]),
    ensures
        has_infix(spec_resets(m, wanted), reset_block(wanted[i], m[wanted[i]])),
    decreases wanted.len(),
{
    let d = wanted.drop_last();
    let r = spec_resets(m, wanted);
    let blk = reset_block(wanted[i], m[wanted[i]]);
    let rd = spec_resets(m, d);
    if i == wanted.len() - 1 {
        assert(r == rd + blk);
        let p = rd.len() as int;
        assert(r.subrange(p, p + blk.len()) =~= blk);
    } else {
        assert(d[i] == wanted[i]);
        lemma_resets_infix(m, d, i);
        let p = choose|p: int|
            0 <= p && p + blk.len() <= rd.len() && #[trigger] rd.subrange(p, p + blk.len()) == blk;
        assert(r.subrange(p, p + blk.len()) =~= rd.subrange(p, p + blk.len()));
    }
}

proof fn lemma_resets_none(m: Map<Seq<char>, Seq<char>>, wanted: Seq<Seq<char>>)
    requires
        forall|i: int| 0 <= i < wanted.len() ==> !m.contains_key(#[trigger] wanted[i]),
    ensures
        spec_resets(m, wanted) == Seq::<char>::empty(),
    decreases wanted.len(),
{
    if wanted.len() > 0 {
        let d = wanted.drop_last();
        assert forall|i: int| 0 <= i < d.len() implies !m.contains_key(#[trigger] d[i]) by {
            assert(d[i] == wanted[i]);
        }
        lemma_resets_none(m, d);
        assert(!m.contains_key(wanted[wanted.len() - 1]));
        assert(spec_resets(m, wanted) =~= Seq::<char>::empty());
    }
}

/// The stream answering an import starts with `feature done` and ends with
/// `done`. When the store holds bundles, every requested ref that the store
/// holds gets its own block resetting it to its stored SHA-1, however many
/// refs are requested; when it holds none of them, or holds no bundle,
/// nothing stands between the two lines.
pub proof fn lemma_import_stream_resets_wanted(store: RefsStoreView, wanted: Seq<Seq<char>>)
    ensures
        spec_import_stream(store, wanted).take("feature done\n"@.len() as int)
            == "feature done\n"@,
        spec_import_stream(store, wanted).skip(
            spec_import_stream(store, wanted).len() - "done\n"@.len(),
        ) == "done\n"@,
        store.bundles.len() > 0 ==> forall|i: int|
            0 <= i < wanted.len() && pairs_to_map(store.refs).contains_key(#[trigger] wanted[i])
                ==> has_infix(
                spec_import_stream(store, wanted),
                reset_block(wanted[i], pairs_to_map(store.refs)[wanted[i]]),
            ),
        (store.bundles.len() == 0 || forall|i: int|
            0 <= i < wanted.len() ==> !pairs_to_map(store.refs).contains_key(#[trigger] wanted[i]))
            ==> spec_import_stream(store, wanted) == "feature done\n"@ + "done\n"@,
{
    let m = pairs_to_map(store.refs);
    let pre = "feature done\n"@;
    let post = "done\n"@;
    let out = spec_import_stream(store, wanted);
    let mid = if store.bundles.len() == 0 {
        Seq::<char>::empty()
    } else {
        spec_resets(m, wanted)
    };
    assert(out =~= pre + mid + post);
    assert(out.take(pre.len() as int) =~= pre);
    assert(out.skip(out.len() - post.len()) =~= post);
    if store.bundles.len() > 0 {
        assert forall|i: int|
            0 <= i < wanted.len() && m.contains_key(#[trigger] wanted[i]) implies has_infix(
            out,
            reset_block(wanted[i], m[wanted[i]]),
        ) by {
            let blk = reset_block(wanted[i], m[wanted[i]]);
            lemma_resets_infix(m, wanted, i);
            let p = choose|p: int|
                0 <= p && p + blk.len() <= mid.len() && #[trigger] mid.subrange(p, p + blk.len()) == blk;
            let q = pre.len() + p;
            assert(out.subrange(q, q + blk.len()) =~= mid.subrange(p, p + blk.len()));
        }
    }
    if store.bundles.len() > 0 && forall|i: int|
        0 <= i < wanted.len() ==> !m.contains_key(#[trigger] wanted[i]) {
        lemma_resets_none(m, wanted);
        assert(out =~= pre + post);
    }
}

proof fn lemma_resets_add(m: Map<Seq<char>, Seq<char>>, a: Seq<Seq<char>>, b: Seq<Seq<char>>)
    ensures
        spec_resets(m, a + b) == spec_resets(m, a) + spec_resets(m, b),
    decreases b.len(),
{
    if b.len() == 0 {
        assert(a + b =~= a);
        assert(spec_resets(m, a) + spec_resets(m, b) =~= spec_resets(m, a));
    } else {
        assert((a + b).drop_last() =~= a + b.drop_last());
        assert((a + b).last() == b.last());
        lemma_resets_add(m, a, b.drop_last());
        assert(spec_resets(m, a + b) =~= spec_resets(m, a) + spec_resets(m, b));
    }
}

/// Fetching refs one request at a time gives the same blocks as fetching
/// them together: the stream for `a + b` is the blocks for `a` followed by
/// the blocks for `b`, and the stream for one ref resets it to its stored
/// SHA-1 when the store holds it (and holds bundles), and to nothing
/// otherwise.
pub proof fn lemma_import_stream_composes(
    store: RefsStoreView,
    a: Seq<Seq<char>>,
    b: Seq<Seq<char>>,
    name: Seq<char>,
)
    ensures
        spec_import_stream(store, a + b) == spec_import_stream(store, a).take(
            spec_import_stream(store, a).len() - "done\n"@.len(),
        ) + spec_import_stream(store, b).skip("feature done\n"@.len() as int),
        spec_import_stream(store, seq![name]) == "feature done\n"@ + (if store.bundles.len() > 0
            && pairs_to_map(store.refs).contains_key(name) {
            reset_block(name, pairs_to_map(store.refs)[name])
        } else {
            Seq::<char>::empty()
        }) + "done\n"@,
{
    let m = pairs_to_map(store.refs);
    let pre = "feature done\n"@;
    let post = "done\n"@;
    let mid = |w: Seq<Seq<char>>|
        if store.bundles.len() == 0 {
            Seq::<char>::empty()
        } else {
            spec_resets(m, w)
        };
    lemma_resets_add(m, a, b);
    let sa = spec_import_stream(store, a);
    let sb = spec_import_stream(store, b);
    assert(sa =~= pre + mid(a) + post);
    assert(sb =~= pre + mid(b) + post);
    assert(sa.take(sa.len() - post.len()) =~= pre + mid(a));
    assert(sb.skip(pre.len() as int) =~= mid(b) + post);
    assert(spec_import_stream(store, a + b) =~= pre + mid(a) + mid(b) + post);
    assert(seq![name].drop_last() =~= Seq::<Seq<char>>::empty());
    assert(seq![name].last() == name);
    assert(spec_resets(m, Seq::<Seq<char>>::empty()) == Seq::<char>::empty());
    assert(spec_resets(m, seq![name]) =~= (if m.contains_key(name) {
        reset_block(name, m[name])
    } else {
        Seq::<char>::empty()
    }));
}

fn starts_with_plus(src: &str) -> (r: bool)
    ensures
        r == is_forced(src@),
{
    src.unicode_len() > 0 && src.get_char(0) == '+'
}

/// The local ref of a push source.
pub fn local_ref(src: &str) -> (r: String)
    ensures
        r@ == src_ref_of(src@),
{
    let n = src.unicode_len();
    if starts_with_plus(src) {
        assert(src@.skip(1) =~= src@.subrange(1, n as int));
        substring(src, 1, n)
    } else {
        assert(src@ =~= src@.subrange(0, n as int));
        substring(src, 0, n)
    }
}

} // verus!
