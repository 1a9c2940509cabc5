//! What an upload promises: paths that are distinct, safe and pasted literally,
//! the order of what it asks for, and when it comes out well.

use vstd::prelude::*;

use crate::command_laws;
use crate::command_laws::Token;
use crate::config::ServerView;
use crate::remote;
use crate::sys;
use crate::sys::LocalTime;
use crate::text;
use crate::text_laws;
use crate::ui::{NoticeView, Progress, StateKind};
use crate::upload;
use crate::upload::{Event, LocalFile, PickedView, Request, Stage, StageView, StepView};
use crate::util;

verus! {

/// Digits and then a hyphen: where two texts agree, so do the digits.
proof fn lemma_digits_before_hyphen(a: Seq<char>, b: Seq<char>, x: Seq<char>, y: Seq<char>)
    requires
        forall|i: int| 0 <= i < a.len() ==> '0' <= #[trigger] a[i] <= '9',
        forall|i: int| 0 <= i < b.len() ==> '0' <= #[trigger] b[i] <= '9',
        a + seq!['-'] + x == b + seq!['-'] + y,
    ensures
        a == b,
{
    let s = a + seq!['-'] + x;
    let r = b + seq!['-'] + y;
    assert(s[a.len() as int] == '-');
    assert(r[b.len() as int] == '-');
    if a.len() < b.len() {
        assert(r[a.len() as int] == b[a.len() as int]);
    }
    if b.len() < a.len() {
        assert(s[b.len() as int] == a[b.len() as int]);
    }
    assert forall|i: int| 0 <= i < a.len() implies a[i] == b[i] by {
        assert(s[i] == a[i]);
        assert(r[i] == b[i]);
    }
    assert(a == b);
}

proof fn lemma_remote_paths_differ(
    dir: Seq<char>,
    t: Seq<char>,
    i: nat,
    a: Option<Seq<char>>,
    j: nat,
    b: Option<Seq<char>>,
)
    requires
        upload::remote_path(dir, t, i, a) == upload::remote_path(dir, t, j, b),
    ensures
        i == j,
{
    let head = upload::inside(dir) + t + seq!['-'];
    let x = util::sanitized(
        match a {
            Some(n) => n,
            None => "file"@,
        },
    );
    let y = util::sanitized(
        match b {
            Some(n) => n,
            None => "file"@,
        },
    );
    let p = upload::remote_path(dir, t, i, a);
    let q = upload::remote_path(dir, t, j, b);
    let tail_p = text::decimal(i) + seq!['-'] + x;
    let tail_q = text::decimal(j) + seq!['-'] + y;
    assert(p == head + tail_p);
    assert(q == head + tail_q);
    assert(p.skip(head.len() as int) == tail_p);
    assert(q.skip(head.len() as int) == tail_q);
    text::lemma_decimal_digits(i);
    text::lemma_decimal_digits(j);
    lemma_digits_before_hyphen(text::decimal(i), text::decimal(j), x, y);
    text::lemma_decimals_differ(i, j);
}

/// No two files of a batch get the same path.
pub proof fn law_remote_paths_are_distinct(
    dir: Seq<char>,
    t: Seq<char>,
    names: Seq<Option<Seq<char>>>,
)
    ensures
        upload::remote_paths(dir, t, names).no_duplicates(),
{
    let paths = upload::remote_paths(dir, t, names);
    assert forall|i: int, j: int|
        0 <= i < paths.len() && 0 <= j < paths.len() && i != j implies paths[i] != paths[j] by {
        if paths[i] == paths[j] {
            lemma_remote_paths_differ(dir, t, i as nat, names[i], j as nat, names[j]);
        }
    }
}

/// Two batches of different times share no path under a directory.
pub proof fn law_batches_share_no_path(
    dir: Seq<char>,
    t: LocalTime,
    i: nat,
    a: Option<Seq<char>>,
    u: LocalTime,
    j: nat,
    b: Option<Seq<char>>,
)
    requires
        sys::stampable(t),
        sys::stampable(u),
        upload::remote_path(dir, sys::stamp(t), i, a) == upload::remote_path(
            dir,
            sys::stamp(u),
            j,
            b,
        ),
    ensures
        t == u,
        i == j,
{
    sys::law_stamp_shape(t);
    sys::law_stamp_shape(u);
    let p = upload::remote_path(dir, sys::stamp(t), i, a);
    let q = upload::remote_path(dir, sys::stamp(u), j, b);
    let k = upload::inside(dir).len() as int;
    assert(p.subrange(k, k + 15) == sys::stamp(t));
    assert(q.subrange(k, k + 15) == sys::stamp(u));
    sys::law_stamps_differ(t, u);
    lemma_remote_paths_differ(dir, sys::stamp(t), i, a, j, b);
}

/// A character that neither a shell nor a path gives a meaning.
pub open spec fn inert(c: char) -> bool {
    &&& !text::white_space(c)
    &&& c != '\'' && c != '"' && c != '\\' && c != '/' && c != '$' && c != '`'
}

proof fn lemma_padded_digits(n: nat, width: nat)
    ensures
        forall|i: int|
            0 <= i < text::padded(n, width).len() ==> '0' <= #[trigger] text::padded(n, width)[i]
                <= '9',
{
    text::lemma_decimal_digits(n);
    let s = text::padded(n, width);
    let d = text::decimal(n);
    assert forall|i: int| 0 <= i < s.len() implies '0' <= #[trigger] s[i] <= '9' by {
        let k = s.len() - d.len();
        if i >= k {
            assert(s[i] == d[i - k]);
        }
    }
}

proof fn lemma_stamp_inert(t: LocalTime)
    ensures
        forall|i: int| 0 <= i < sys::stamp(t).len() ==> inert(#[trigger] sys::stamp(t)[i]),
{
    lemma_padded_digits(t.year as nat, 4);
    lemma_padded_digits(t.month as nat, 2);
    lemma_padded_digits(t.day as nat, 2);
    lemma_padded_digits(t.hour as nat, 2);
    lemma_padded_digits(t.minute as nat, 2);
    lemma_padded_digits(t.second as nat, 2);
}

/// A remote file name holds no white space, no quote, no slash, and nothing that
/// a shell expands.
pub proof fn law_remote_name_is_inert(t: LocalTime, i: nat, name: Option<Seq<char>>)
    ensures
        forall|k: int|
            0 <= k < upload::remote_name(sys::stamp(t), i, name).len() ==> inert(
                #[trigger] upload::remote_name(sys::stamp(t), i, name)[k],
            ),
{
    lemma_stamp_inert(t);
    text::lemma_decimal_digits(i);
    util::law_sanitized_is_safe(
        match name {
            Some(n) => n,
            None => "file"@,
        },
    );
}

/// The words that a shell reads from single-quoted words with a space between
/// two; `None` of any other text.
pub open spec fn single_quoted_words(s: Seq<char>) -> Option<Seq<Seq<char>>>
    decreases s.len(),
{
    let body = s.skip(1);
    let end = text::position(body, '\'');
    let rest = body.skip(end + 1);
    if s.len() == 0 || s[0] != '\'' || end >= body.len() || end < 0 {
        None
    } else if rest.len() == 0 {
        Some(seq![body.take(end)])
    } else if rest[0] == ' ' {
        match single_quoted_words(rest.skip(1)) {
            Some(words) => Some(seq![body.take(end)] + words),
            None => None,
        }
    } else {
        None
    }
}

proof fn lemma_payload_first(paths: Seq<Seq<char>>)
    requires
        paths.len() > 0,
    ensures
        upload::payload(paths) == seq!['\''] + paths[0] + seq!['\''] + if paths.len() == 1 {
            seq![]
        } else {
            seq![' '] + upload::payload(paths.drop_first())
        },
    decreases paths.len(),
{
    if paths.len() > 1 {
        lemma_payload_first(paths.drop_last());
        assert(paths.drop_last().drop_first() == paths.drop_first().drop_last());
        if paths.len() == 2 {
            assert(paths.drop_last().len() == 1);
            assert(paths.drop_first().last() == paths.last());
        }
    }
}

proof fn lemma_position_of_end(a: Seq<char>, c: char, b: Seq<char>)
    requires
        !a.contains(c),
        b.len() > 0,
        b[0] == c,
    ensures
        text::position(a + b, c) == a.len(),
    decreases a.len(),
{
    if a.len() == 0 {
        assert(a + b == b);
    } else {
        assert(a[0] != c);
        assert(!a.drop_first().contains(c)) by {
            assert forall|i: int| 0 <= i < a.len() - 1 implies a.drop_first()[i] != c by {
                assert(a.drop_first()[i] == a[i + 1]);
            }
        }
        lemma_position_of_end(a.drop_first(), c, b);
        assert((a + b).drop_first() == a.drop_first() + b);
    }
}

/// What is on the clipboard pastes as the paths, each one a literal word, where
/// no path holds a single quote.
pub proof fn law_payload_pastes_as_paths(paths: Seq<Seq<char>>)
    requires
        paths.len() > 0,
        forall|i: int| 0 <= i < paths.len() ==> !(#[trigger] paths[i]).contains('\''),
    ensures
        single_quoted_words(upload::payload(paths)) == Some(paths),
    decreases paths.len(),
{
    let s = upload::payload(paths);
    lemma_payload_first(paths);
    let more = if paths.len() == 1 {
        seq![]
    } else {
        seq![' '] + upload::payload(paths.drop_first())
    };
    let body = s.skip(1);
    assert(!paths[0].contains('\''));
    assert(body == paths[0] + (seq!['\''] + more));
    lemma_position_of_end(paths[0], '\'', seq!['\''] + more);
    assert(body.take(paths[0].len() as int) == paths[0]);
    assert(body.skip(paths[0].len() as int + 1) == more);
    if paths.len() == 1 {
        assert(seq![paths[0]] == paths);
    } else {
        assert forall|i: int| 0 <= i < paths.len() - 1 implies !(
        #[trigger] paths.drop_first()[i]).contains('\'') by {
            assert(paths.drop_first()[i] == paths[i + 1]);
        }
        law_payload_pastes_as_paths(paths.drop_first());
        assert(more.skip(1) == upload::payload(paths.drop_first()));
        assert(seq![paths[0]] + paths.drop_first() == paths);
    }
}

/// A single quote in a path comes from the remote directory alone.
pub proof fn law_paths_quote_only_from_dir(
    dir: Seq<char>,
    t: LocalTime,
    i: nat,
    name: Option<Seq<char>>,
)
    requires
        !dir.contains('\''),
    ensures
        !upload::remote_path(dir, sys::stamp(t), i, name).contains('\''),
{
    law_remote_name_is_inert(t, i, name);
    let p = upload::remote_path(dir, sys::stamp(t), i, name);
    let front = upload::inside(dir);
    assert forall|k: int| 0 <= k < p.len() implies p[k] != '\'' by {
        if k < dir.len() {
            assert(p[k] == dir[k]);
        } else if k >= front.len() {
            assert(p[k] == upload::remote_name(sys::stamp(t), i, name)[k - front.len()]);
        }
    }
}

/// The clipboard of an upload pastes as the paths of its files, each one a literal
/// word, where the remote directory holds no single quote.
pub proof fn law_clipboard_pastes_as_paths(
    dir: Seq<char>,
    t: LocalTime,
    names: Seq<Option<Seq<char>>>,
)
    requires
        names.len() > 0,
        !dir.contains('\''),
    ensures
        single_quoted_words(upload::payload(upload::remote_paths(dir, sys::stamp(t), names)))
            == Some(upload::remote_paths(dir, sys::stamp(t), names)),
{
    let paths = upload::remote_paths(dir, sys::stamp(t), names);
    assert forall|i: int| 0 <= i < paths.len() implies !(#[trigger] paths[i]).contains('\'') by {
        law_paths_quote_only_from_dir(dir, t, i as nat, names[i]);
    }
    law_payload_pastes_as_paths(paths);
}

proof fn lemma_path_literal(dir: Seq<char>, t: LocalTime, i: nat, name: Option<Seq<char>>)
    requires
        util::literal_in_quotes(dir),
    ensures
        util::literal_in_quotes(upload::remote_path(dir, sys::stamp(t), i, name)),
{
    law_remote_name_is_inert(t, i, name);
    let n = upload::remote_name(sys::stamp(t), i, name);
    let path = upload::remote_path(dir, sys::stamp(t), i, name);
    let front = upload::inside(dir);
    assert forall|k: int| 0 <= k < path.len() implies {
        &&& #[trigger] path[k] != '$'
        &&& path[k] != '`'
        &&& path[k] == '\\' ==> k + 1 < path.len() && path[k + 1] != '"' && path[k + 1] != '\\'
            && path[k + 1] != '\n'
    } by {
        if k < dir.len() {
            assert(path[k] == dir[k]);
            if k + 1 < dir.len() {
                assert(path[k + 1] == dir[k + 1]);
            }
        } else if k >= front.len() {
            assert(path[k] == n[k - front.len()]);
        }
    }
}

/// The remote shell makes the very paths that are pasted: it takes each quoted
/// path of the setup command back to the path itself, where the remote directory
/// holds nothing that a shell expands or unescapes between double quotes.
pub proof fn law_setup_makes_the_paths(
    dir: Seq<char>,
    t: LocalTime,
    i: nat,
    name: Option<Seq<char>>,
)
    requires
        util::literal_in_quotes(dir),
    ensures
        ({
            let path = upload::remote_path(dir, sys::stamp(t), i, name);
            &&& util::quoted(path)[0] == '"'
            &&& util::unquoted(util::quoted(path).skip(1)) == Some(path)
            &&& util::unquoted(util::quoted(dir).skip(1)) == Some(dir)
        }),
{
    let path = upload::remote_path(dir, sys::stamp(t), i, name);
    lemma_path_literal(dir, t, i, name);
    util::law_shell_quote_round_trip(path);
    util::law_shell_quote_round_trip(dir);
}

/// The commands and copies of an upload come in their order: nothing is run on
/// the remote before its paths are on the clipboard, and nothing is copied before
/// the remote is prepared.
pub proof fn law_clipboard_then_setup_then_files(
    server: ServerView,
    files: Seq<PickedView>,
    stage: StageView,
    event: Event<Seq<char>>,
)
    requires
        upload::stage_wf(files.len(), stage),
        upload::answers(stage, event),
    ensures
        upload::next(server, files, stage, event).1.request is Ssh ==> stage is Clipboard && event
            == Event::<Seq<char>>::Clipboard(true),
        upload::next(server, files, stage, event).1.request is Scp ==> (stage is Setup && event
            == Event::<Seq<char>>::Ssh(true)) || stage is Sending,
        upload::begin(server, files).1.request is Home || upload::begin(server, files).1.request is
            Clock || upload::begin(server, files).1.request == Request::<Seq<char>>::Done(false),
{
}

/// A refusal ends the upload at once, without success: an unknown home, a busy
/// clipboard, a remote that cannot be prepared.
pub proof fn law_refusal_ends_the_upload(
    server: ServerView,
    files: Seq<PickedView>,
    stage: StageView,
    event: Event<Seq<char>>,
)
    requires
        upload::stage_wf(files.len(), stage),
        upload::answers(stage, event),
        event == Event::<Seq<char>>::Home(None) && !remote::absolute(server.remote_dir) || event
            == Event::<Seq<char>>::Clipboard(false) || event == Event::<Seq<char>>::Ssh(false),
    ensures
        upload::next(server, files, stage, event).0 == (StageView::Done { ok: false }),
        upload::next(server, files, stage, event).1.request == Request::<Seq<char>>::Done(false),
        upload::next(server, files, stage, event).1.notice matches Some(n) && n.kind is Error,
{
}

/// Whether a request asks for what a stage waits for; at the end, whether it tells
/// the outcome.
pub open spec fn waits_for(stage: StageView, request: Request<Seq<char>>) -> bool {
    match stage {
        Stage::Home => request is Home,
        Stage::Clock { .. } => request is Clock,
        Stage::Clipboard { .. } => request is Clipboard,
        Stage::Setup { .. } => request is Ssh,
        Stage::Sending { .. } => request is Scp,
        Stage::Done { ok } => request == Request::<Seq<char>>::Done(ok),
    }
}

/// An upload asks for what it waits for, from its start to its end, where it
/// tells its outcome.
pub proof fn law_upload_asks_for_what_it_waits_for(
    server: ServerView,
    files: Seq<PickedView>,
    stage: StageView,
    event: Event<Seq<char>>,
)
    requires
        upload::stage_wf(files.len(), stage),
        upload::answers(stage, event),
    ensures
        waits_for(upload::begin(server, files).0, upload::begin(server, files).1.request),
        waits_for(
            upload::next(server, files, stage, event).0,
            upload::next(server, files, stage, event).1.request,
        ),
{
}

/// How many events an upload of `n` files still takes at most.
pub open spec fn events_left(n: nat, stage: StageView) -> int {
    match stage {
        Stage::Home => n as int + 4,
        Stage::Clock { .. } => n as int + 3,
        Stage::Clipboard { .. } => n as int + 2,
        Stage::Setup { .. } => n as int + 1,
        Stage::Sending { results, .. } => n - results.len(),
        Stage::Done { .. } => 0,
    }
}

/// Every event brings an upload nearer to its end.
pub proof fn law_upload_ends(
    server: ServerView,
    files: Seq<PickedView>,
    stage: StageView,
    event: Event<Seq<char>>,
)
    requires
        upload::stage_wf(files.len(), stage),
        upload::answers(stage, event),
    ensures
        0 <= events_left(files.len(), upload::next(server, files, stage, event).0) < events_left(
            files.len(),
            stage,
        ),
        upload::stage_wf(files.len(), upload::next(server, files, stage, event).0),
{
}

/// The bar never shows more than the whole, and grows only with a file copied.
pub proof fn law_progress_within_total(
    server: ServerView,
    files: Seq<PickedView>,
    stage: StageView,
    event: Event<Seq<char>>,
)
    requires
        files.len() <= usize::MAX,
        upload::stage_wf(files.len(), stage),
        upload::answers(stage, event),
    ensures
        upload::next(server, files, stage, event).1.progress matches Some(p) ==> {
            &&& event == Event::<Seq<char>>::Scp(true)
            &&& 0 < p.done <= p.total
            &&& p.total == files.len()
        },
{
}

/// The stage that a run of events leads to.
pub open spec fn played(
    server: ServerView,
    files: Seq<PickedView>,
    stage: StageView,
    events: Seq<Event<Seq<char>>>,
) -> StageView
    decreases events.len(),
{
    if events.len() == 0 {
        stage
    } else {
        upload::next(
            server,
            files,
            played(server, files, stage, events.drop_last()),
            events.last(),
        ).0
    }
}

proof fn lemma_no_failures(results: Seq<bool>)
    ensures
        upload::failures(results) == 0 <==> forall|i: int|
            0 <= i < results.len() ==> #[trigger] results[i],
    decreases results.len(),
{
    if results.len() > 0 {
        let short = results.drop_last();
        lemma_no_failures(short);
        if upload::failures(results) == 0 {
            assert forall|i: int| 0 <= i < results.len() implies #[trigger] results[i] by {
                if i < short.len() {
                    assert(short[i]);
                }
            }
        } else if forall|i: int| 0 <= i < results.len() ==> #[trigger] results[i] {
            assert forall|i: int| 0 <= i < short.len() implies #[trigger] short[i] by {
                assert(results[i]);
            }
            assert(results[results.len() - 1]);
        }
    }
}

/// The events of a transfer whose files fare as `results` tells.
pub open spec fn copies(results: Seq<bool>) -> Seq<Event<Seq<char>>> {
    results.map_values(|ok: bool| Event::<Seq<char>>::Scp(ok))
}

proof fn lemma_played_copies(
    server: ServerView,
    files: Seq<PickedView>,
    dir: Seq<char>,
    t: LocalTime,
    results: Seq<bool>,
)
    requires
        files.len() > 0,
        results.len() <= files.len(),
    ensures
        played(
            server,
            files,
            Stage::Clock { dir },
            seq![Event::Clock(t), Event::Clipboard(true), Event::Ssh(true)] + copies(results),
        ) == upload::send_next(
            files,
            upload::remote_paths(dir, sys::stamp(t), upload::names(files)),
            results,
            None,
        ).0,
    decreases results.len(),
{
    let head = seq![Event::<Seq<char>>::Clock(t), Event::Clipboard(true), Event::Ssh(true)];
    let events = head + copies(results);
    if results.len() == 0 {
        reveal_with_fuel(played, 4);
        assert(events == head);
        let two = head.drop_last();
        let one = two.drop_last();
        assert(one.drop_last() == Seq::<Event<Seq<char>>>::empty());
        assert(head.last() == Event::<Seq<char>>::Ssh(true));
        assert(two.last() == Event::<Seq<char>>::Clipboard(true));
        assert(one.last() == Event::<Seq<char>>::Clock(t));
        assert(results == Seq::<bool>::empty());
    } else {
        let short = results.drop_last();
        lemma_played_copies(server, files, dir, t, short);
        assert(events.drop_last() == head + copies(short));
        assert(events.last() == Event::<Seq<char>>::Scp(results.last()));
        assert(short.push(results.last()) == results);
    }
}

/// An upload whose paths are on the clipboard and whose remote is prepared comes
/// out well exactly where every file was copied.
pub proof fn law_upload_succeeds_when_all_are_copied(
    server: ServerView,
    files: Seq<PickedView>,
    dir: Seq<char>,
    t: LocalTime,
    results: Seq<bool>,
)
    requires
        files.len() > 0,
        results.len() == files.len(),
    ensures
        played(
            server,
            files,
            Stage::Clock { dir },
            seq![Event::Clock(t), Event::Clipboard(true), Event::Ssh(true)] + copies(results),
        ) == (StageView::Done {
            ok: forall|i: int| 0 <= i < results.len() ==> #[trigger] results[i],
        }),
{
    lemma_played_copies(server, files, dir, t, results);
    lemma_no_failures(results);
}

proof fn lemma_played_in_parts(
    server: ServerView,
    files: Seq<PickedView>,
    stage: StageView,
    a: Seq<Event<Seq<char>>>,
    b: Seq<Event<Seq<char>>>,
)
    ensures
        played(server, files, stage, a + b) == played(
            server,
            files,
            played(server, files, stage, a),
            b,
        ),
    decreases b.len(),
{
    if b.len() == 0 {
        assert(a + b == a);
    } else {
        lemma_played_in_parts(server, files, stage, a, b.drop_last());
        assert((a + b).drop_last() == a + b.drop_last());
    }
}

/// The events of an upload in which nothing is refused and the files fare as
/// `results` tells. Only a directory that is not given from the root has the home
/// asked for.
pub open spec fn whole_run(
    server: ServerView,
    home: Option<Seq<char>>,
    t: LocalTime,
    results: Seq<bool>,
) -> Seq<Event<Seq<char>>> {
    (if remote::absolute(server.remote_dir) {
        seq![]
    } else {
        seq![Event::Home(home)]
    }) + (seq![Event::Clock(t), Event::Clipboard(true), Event::Ssh(true)] + copies(results))
}

/// An upload in which nothing is refused comes out well exactly where every file
/// was copied.
pub proof fn law_whole_upload(
    server: ServerView,
    files: Seq<PickedView>,
    home: Option<Seq<char>>,
    t: LocalTime,
    results: Seq<bool>,
)
    requires
        files.len() > 0,
        results.len() == files.len(),
        remote::resolved(server.remote_dir, home) is Some,
    ensures
        played(
            server,
            files,
            upload::begin(server, files).0,
            whole_run(server, home, t, results),
        ) == (StageView::Done {
            ok: forall|i: int| 0 <= i < results.len() ==> #[trigger] results[i],
        }),
{
    let start = upload::begin(server, files).0;
    let dir = remote::resolved(server.remote_dir, home)->0;
    let rest = seq![Event::<Seq<char>>::Clock(t), Event::Clipboard(true), Event::Ssh(true)]
        + copies(results);
    law_upload_succeeds_when_all_are_copied(server, files, dir, t, results);
    if remote::absolute(server.remote_dir) {
        assert(whole_run(server, home, t, results) == rest);
    } else {
        let ask = seq![Event::<Seq<char>>::Home(home)];
        lemma_played_in_parts(server, files, start, ask, rest);
        assert(ask.drop_last() == Seq::<Event<Seq<char>>>::empty());
        reveal_with_fuel(played, 2);
        assert(played(server, files, start, ask) == (StageView::Clock { dir }));
    }
}

/// Success comes only with the last file copied, and all files before it.
pub proof fn law_success_means_all_copied(
    server: ServerView,
    files: Seq<PickedView>,
    stage: StageView,
    event: Event<Seq<char>>,
)
    requires
        upload::stage_wf(files.len(), stage),
        upload::answers(stage, event),
        upload::next(server, files, stage, event).1.request == Request::<Seq<char>>::Done(true),
    ensures
        event == Event::<Seq<char>>::Scp(true),
        stage matches Stage::Sending { paths, results } && results.len() + 1 == files.len() && (
        forall|i: int| 0 <= i < results.len() ==> #[trigger] results[i]),
{
    if let Stage::Sending { paths, results } = stage {
        if let Event::Scp(ok) = event {
            let all = results.push(ok);
            lemma_no_failures(all);
            assert forall|i: int| 0 <= i < results.len() implies #[trigger] results[i] by {
                assert(all[i]);
            }
            assert(all[results.len() as int]);
        }
    }
}

/// Every file is sent once, in its order, to its own path: while `results` tells
/// how the files so far fared, the next one is on its way.
pub proof fn law_files_are_sent_in_order(
    server: ServerView,
    files: Seq<PickedView>,
    dir: Seq<char>,
    t: LocalTime,
    results: Seq<bool>,
)
    requires
        results.len() < files.len(),
    ensures
        ({
            let paths = upload::remote_paths(dir, sys::stamp(t), upload::names(files));
            let k = results.len() as int;
            &&& played(
                server,
                files,
                Stage::Clock { dir },
                seq![Event::Clock(t), Event::Clipboard(true), Event::Ssh(true)] + copies(results),
            ) == (StageView::Sending { paths, results })
            &&& upload::send_next(files, paths, results, None).1.request == (Request::Scp {
                source: files[k].source,
                remote: paths[k],
            })
        }),
{
    lemma_played_copies(server, files, dir, t, results);
}

/// Whether the picked files are exactly the files that are there: each once, in
/// their order, under their own names.
pub open spec fn exactly_the_existing(files: Seq<LocalFile>, picked: Seq<PickedView>) -> bool {
    &&& forall|k: int|
        0 <= k < picked.len() ==> {
            let i = (#[trigger] picked[k]).source as int;
            &&& 0 <= i < files.len()
            &&& files[i].exists
            &&& match files[i].name {
                Some(name) => picked[k].name == Some(name@),
                None => picked[k].name is None,
            }
        }
    &&& forall|j: int, k: int|
        0 <= j < k < picked.len() ==> (#[trigger] picked[j]).source < (#[trigger] picked[k]).source
    &&& forall|i: int|
        0 <= i < files.len() && (#[trigger] files[i]).exists ==> exists|k: int|
            0 <= k < picked.len() && (#[trigger] picked[k]).source == i
}

/// The files of an upload are exactly those handed in that are there.
pub proof fn law_upload_takes_exactly_the_existing(files: Seq<LocalFile>)
    requires
        files.len() <= usize::MAX,
    ensures
        exactly_the_existing(files, upload::existing(files)),
    decreases files.len(),
{
    if files.len() > 0 {
        let short = files.drop_last();
        law_upload_takes_exactly_the_existing(short);
        let before = upload::existing(short);
        let picked = upload::existing(files);
        assert forall|k: int| 0 <= k < picked.len() implies {
            let i = (#[trigger] picked[k]).source as int;
            &&& 0 <= i < files.len()
            &&& files[i].exists
            &&& match files[i].name {
                Some(name) => picked[k].name == Some(name@),
                None => picked[k].name is None,
            }
        } by {
            if k < before.len() {
                assert(picked[k] == before[k]);
                assert(short[before[k].source as int] == files[before[k].source as int]);
            }
        }
        assert forall|j: int, k: int| 0 <= j < k < picked.len() implies (
        #[trigger] picked[j]).source < (#[trigger] picked[k]).source by {
            assert(picked[j] == before[j]);
            if k < before.len() {
                assert(picked[k] == before[k]);
            }
        }
        assert forall|i: int| 0 <= i < files.len() && (#[trigger] files[i]).exists implies exists|
            k: int,
        |
            0 <= k < picked.len() && (#[trigger] picked[k]).source == i by {
            if i < short.len() {
                assert(short[i] == files[i]);
                let k = choose|k: int| 0 <= k < before.len() && (#[trigger] before[k]).source == i;
                assert(picked[k] == before[k]);
            } else {
                assert(picked[picked.len() - 1].source == i);
            }
        }
    }
}

/// What is pasted goes path by path: one path stands between single quotes, and a
/// space stands between what two lists paste as.
pub proof fn law_payload_goes_by_paths(a: Seq<Seq<char>>, path: Seq<char>, b: Seq<Seq<char>>)
    ensures
        upload::payload(seq![path]) == seq!['\''] + path + seq!['\''],
        a.len() > 0 && b.len() > 0 ==> upload::payload(a + b) == upload::payload(a) + seq![' ']
            + upload::payload(b),
    decreases b.len(),
{
    assert(seq![path].last() == path);
    if a.len() > 0 && b.len() > 0 {
        assert((a + b).drop_last() == a + b.drop_last());
        if b.len() > 1 {
            law_payload_goes_by_paths(a, path, b.drop_last());
        } else {
            assert(b.drop_last() == Seq::<Seq<char>>::empty());
            assert(a + b.drop_last() == a);
        }
    }
}

/// What an upload puts on the clipboard reads back as one literal path for each of
/// its files, in their order, where the remote directory holds no single quote.
pub proof fn law_upload_pastes_a_path_for_each_file(
    server: ServerView,
    files: Seq<PickedView>,
    dir: Seq<char>,
    t: LocalTime,
)
    requires
        files.len() > 0,
        !dir.contains('\''),
    ensures
        upload::next(server, files, Stage::Clock { dir }, Event::Clock(t)).1.request
            matches Request::Clipboard(pasted) && single_quoted_words(pasted) matches Some(words)
            && words.len() == files.len() && forall|i: int|
            0 <= i < files.len() ==> #[trigger] words[i] == upload::remote_path(
                dir,
                sys::stamp(t),
                i as nat,
                files[i].name,
            ),
{
    let names = upload::names(files);
    law_clipboard_pastes_as_paths(dir, t, names);
    let paths = upload::remote_paths(dir, sys::stamp(t), names);
    assert forall|i: int| 0 <= i < files.len() implies #[trigger] paths[i] == upload::remote_path(
        dir,
        sys::stamp(t),
        i as nat,
        files[i].name,
    ) by {
        assert(names[i] == files[i].name);
    }
}

/// What an upload does last when it was begun and then the events came.
pub open spec fn told(
    server: ServerView,
    files: Seq<PickedView>,
    events: Seq<Event<Seq<char>>>,
) -> StepView {
    let begun = upload::begin(server, files);
    if events.len() == 0 {
        begun.1
    } else {
        upload::next(
            server,
            files,
            played(server, files, begun.0, events.drop_last()),
            events.last(),
        ).1
    }
}

/// The events up to the time, of an upload in which nothing is refused.
pub open spec fn until_clock(server: ServerView, home: Option<Seq<char>>, t: LocalTime) -> Seq<
    Event<Seq<char>>,
> {
    (if remote::absolute(server.remote_dir) {
        seq![]
    } else {
        seq![Event::Home(home)]
    }).push(Event::Clock(t))
}

proof fn lemma_home_then_clock(
    server: ServerView,
    files: Seq<PickedView>,
    home: Option<Seq<char>>,
    dir: Seq<char>,
    t: LocalTime,
)
    requires
        files.len() > 0,
        remote::resolved(server.remote_dir, home) == Some(dir),
    ensures
        played(
            server,
            files,
            upload::begin(server, files).0,
            until_clock(server, home, t).drop_last(),
        ) == (StageView::Clock { dir }),
{
    let head = until_clock(server, home, t).drop_last();
    let none = Seq::<Event<Seq<char>>>::empty();
    reveal_with_fuel(played, 2);
    if remote::absolute(server.remote_dir) {
        assert(head == none);
    } else {
        assert(head == seq![Event::<Seq<char>>::Home(home)]);
        assert(head.drop_last() == none);
    }
}

proof fn lemma_sent_after(
    server: ServerView,
    files: Seq<PickedView>,
    dir: Seq<char>,
    t: LocalTime,
    results: Seq<bool>,
)
    requires
        results.len() < files.len(),
    ensures
        ({
            let events = seq![Event::Clock(t), Event::Clipboard(true), Event::Ssh(true)] + copies(
                results,
            );
            let k = results.len() as int;
            upload::next(
                server,
                files,
                played(server, files, Stage::Clock { dir }, events.drop_last()),
                events.last(),
            ).1.request == (Request::Scp {
                source: files[k].source,
                remote: upload::remote_path(dir, sys::stamp(t), k as nat, files[k].name),
            })
        }),
{
    let head = seq![Event::<Seq<char>>::Clock(t), Event::Clipboard(true), Event::Ssh(true)];
    let events = head + copies(results);
    let none = Seq::<Event<Seq<char>>>::empty();
    let k = results.len() as int;
    let paths = upload::remote_paths(dir, sys::stamp(t), upload::names(files));
    assert(upload::names(files)[k] == files[k].name);
    assert(paths[k] == upload::remote_path(dir, sys::stamp(t), k as nat, files[k].name));
    if results.len() == 0 {
        assert(copies(results) == none);
        assert(events == head);
        let two = head.drop_last();
        let one = two.drop_last();
        assert(one.drop_last() == none);
        assert(two.last() == Event::<Seq<char>>::Clipboard(true));
        assert(one.last() == Event::<Seq<char>>::Clock(t));
        reveal_with_fuel(played, 3);
        assert(played(server, files, Stage::Clock { dir }, two) == (StageView::Setup { paths }));
    } else {
        let fewer = results.drop_last();
        assert(events.drop_last() == head + copies(fewer));
        lemma_played_copies(server, files, dir, t, fewer);
        assert(events.last() == Event::<Seq<char>>::Scp(results.last()));
        assert(fewer.push(results.last()) == results);
    }
}

/// An upload is about the paths that it pastes: what it puts on the clipboard reads
/// back as one path for each file, and each file is then sent to its own one of them,
/// in their order.
pub proof fn law_upload_sends_to_the_pasted_paths(
    server: ServerView,
    files: Seq<PickedView>,
    home: Option<Seq<char>>,
    dir: Seq<char>,
    t: LocalTime,
    results: Seq<bool>,
)
    requires
        remote::resolved(server.remote_dir, home) == Some(dir),
        !dir.contains('\''),
        results.len() < files.len(),
    ensures
        ({
            let clock = until_clock(server, home, t);
            let sending = clock + (seq![Event::Clipboard(true), Event::Ssh(true)] + copies(
                results,
            ));
            let k = results.len() as int;
            &&& told(server, files, clock).request matches Request::Clipboard(pasted)
            &&& single_quoted_words(pasted) matches Some(words)
            &&& words.len() == files.len()
            &&& forall|i: int|
                0 <= i < files.len() ==> #[trigger] words[i] == upload::remote_path(
                    dir,
                    sys::stamp(t),
                    i as nat,
                    files[i].name,
                )
            &&& told(server, files, sending).request matches Request::Scp { source, remote }
            &&& source == files[k].source
            &&& remote == words[k]
        }),
{
    let clock = until_clock(server, home, t);
    let start = upload::begin(server, files).0;
    let head = clock.drop_last();
    lemma_home_then_clock(server, files, home, dir, t);
    law_upload_pastes_a_path_for_each_file(server, files, dir, t);
    let rest = seq![Event::<Seq<char>>::Clock(t), Event::Clipboard(true), Event::Ssh(true)]
        + copies(results);
    let sending = clock + (seq![Event::Clipboard(true), Event::Ssh(true)] + copies(results));
    assert(sending == head + rest);
    assert(sending.drop_last() == head + rest.drop_last());
    assert(sending.last() == rest.last());
    lemma_played_in_parts(server, files, start, head, rest.drop_last());
    lemma_sent_after(server, files, dir, t, results);
}

/// Whatever the remote directory holds, an upload pastes one path for each file, in
/// their order.
pub proof fn law_upload_pastes_all_paths(
    server: ServerView,
    files: Seq<PickedView>,
    dir: Seq<char>,
    t: LocalTime,
    paths: Seq<Seq<char>>,
)
    requires
        paths.len() == files.len(),
        forall|i: int|
            0 <= i < files.len() ==> #[trigger] paths[i] == upload::remote_path(
                dir,
                sys::stamp(t),
                i as nat,
                files[i].name,
            ),
    ensures
        upload::next(server, files, Stage::Clock { dir }, Event::Clock(t)).1.request
            == Request::Clipboard(upload::payload(paths)),
{
    let names = upload::names(files);
    assert(paths =~= upload::remote_paths(dir, sys::stamp(t), names)) by {
        assert forall|i: int| 0 <= i < files.len() implies names[i] == files[i].name by {}
    }
}

/// The remote shell makes the directory and the very paths that are pasted: what is
/// run after the clipboard took the text is read as `mkdir -p` of the directory and
/// `touch` of one path for each file.
pub proof fn law_upload_prepares_the_pasted_paths(
    server: ServerView,
    files: Seq<PickedView>,
    dir: Seq<char>,
    t: LocalTime,
    home: Seq<char>,
)
    requires
        files.len() > 0,
        !dir.contains('\''),
        util::literal_in_quotes(dir),
    ensures
        ({
            let clip = upload::next(server, files, Stage::Clock { dir }, Event::Clock(t));
            let setup = upload::next(server, files, clip.0, Event::Clipboard(true));
            &&& clip.1.request matches Request::Clipboard(pasted)
            &&& single_quoted_words(pasted) matches Some(words)
            &&& setup.1.request matches Request::Ssh(command)
            &&& command_laws::shell_reads(command, home) == Some(
                seq![
                    Token::Word("mkdir"@),
                    Token::Word("-p"@),
                    Token::Word(dir),
                    Token::And,
                    Token::Word("touch"@),
                ] + command_laws::worded(words),
            )
        }),
{
    let names = upload::names(files);
    let paths = upload::remote_paths(dir, sys::stamp(t), names);
    law_clipboard_pastes_as_paths(dir, t, names);
    assert forall|i: int| 0 <= i < paths.len() implies util::literal_in_quotes(
        #[trigger] paths[i],
    ) by {
        lemma_path_literal(dir, t, i as nat, names[i]);
    }
    command_laws::law_setup_command_reads_as_meant(dir, paths, home);
}

/// A file's path is its directory, a slash, and its name, which holds no slash; the
/// root takes no second slash.
pub proof fn law_remote_path_stands_in_its_directory(
    dir: Seq<char>,
    t: LocalTime,
    i: nat,
    name: Option<Seq<char>>,
)
    ensures
        ({
            let n = upload::remote_name(sys::stamp(t), i, name);
            let path = upload::remote_path(dir, sys::stamp(t), i, name);
            &&& dir != seq!['/'] ==> path == dir + seq!['/'] + n
            &&& dir == seq!['/'] ==> path == seq!['/'] + n
            &&& !n.contains('/')
        }),
{
    law_remote_name_is_inert(t, i, name);
    let n = upload::remote_name(sys::stamp(t), i, name);
    assert forall|k: int| 0 <= k < n.len() implies #[trigger] n[k] != '/' by {
        assert(inert(n[k]));
    }
}

/// A remote file name reads back: the stamp of its batch, a hyphen, its index in the
/// batch, a hyphen, and the remote form of the file's own name, or `file` where it
/// has none.
pub proof fn law_remote_name_reads_back(t: Seq<char>, i: nat, name: Option<Seq<char>>)
    ensures
        ({
            let n = upload::remote_name(t, i, name);
            let rest = n.skip(t.len() as int + 1);
            let hyphen = text::position(rest, '-');
            &&& t.len() < n.len()
            &&& n.take(t.len() as int) == t
            &&& n[t.len() as int] == '-'
            &&& 0 < hyphen < rest.len()
            &&& text_laws::all_digits(rest.take(hyphen))
            &&& text_laws::number(rest.take(hyphen)) == i
            &&& hyphen > 1 ==> rest[0] != '0'
            &&& rest.skip(hyphen + 1) == match name {
                Some(own) => util::sanitized(own),
                None => "file"@,
            }
        }),
{
    reveal_strlit("file");
    util::law_sanitize_keeps_remote_names("file"@);
    let own = util::sanitized(
        match name {
            Some(x) => x,
            None => "file"@,
        },
    );
    let n = upload::remote_name(t, i, name);
    let d = text::decimal(i);
    let rest = n.skip(t.len() as int + 1);
    let tail = seq!['-'] + own;
    assert(rest == d + tail);
    text_laws::law_decimal_reads_back(i);
    assert(!d.contains('-')) by {
        assert forall|k: int| 0 <= k < d.len() implies #[trigger] d[k] != '-' by {
            assert('0' <= d[k] <= '9');
        }
    }
    lemma_position_of_end(d, '-', tail);
    assert(rest.take(d.len() as int) == d);
    assert(rest.skip(d.len() as int + 1) == own);
    assert(n.take(t.len() as int) == t);
}

/// Every file that was not copied counts, and no other.
pub proof fn law_failures_are_counted(a: Seq<bool>, b: Seq<bool>)
    ensures
        upload::failures(Seq::empty()) == 0,
        upload::failures(seq![true]) == 0,
        upload::failures(seq![false]) == 1,
        upload::failures(a + b) == upload::failures(a) + upload::failures(b),
    decreases b.len(),
{
    reveal_with_fuel(upload::failures, 2);
    assert(seq![true].drop_last() == Seq::<bool>::empty());
    assert(seq![false].drop_last() == Seq::<bool>::empty());
    if b.len() == 0 {
        assert(a + b == a);
    } else {
        law_failures_are_counted(a, b.drop_last());
        assert((a + b).drop_last() == a + b.drop_last());
    }
}

/// What an upload reports: which file it sends, of how many and under which name; at
/// the end how many files went or failed; and on a refusal what was refused.
pub proof fn law_upload_reports(
    server: ServerView,
    files: Seq<PickedView>,
    stage: StageView,
    event: Event<Seq<char>>,
)
    requires
        files.len() <= usize::MAX,
        upload::stage_wf(files.len(), stage),
        upload::answers(stage, event),
    ensures
        ({
            let (after, step) = upload::next(server, files, stage, event);
            let total = text::decimal(files.len());
            let error = |title: Seq<char>, sub: Seq<char>|
                Some(NoticeView { kind: StateKind::Error, title, sub });
            &&& match step.request {
                Request::Scp { .. } => after matches Stage::Sending { results, .. }
                    && step.notice == Some(
                    NoticeView {
                        kind: StateKind::Uploading,
                        title: "Sending "@ + text::decimal((results.len() + 1) as nat) + "/"@
                            + total,
                        sub: match files[results.len() as int].name {
                            Some(name) => name,
                            None => seq![],
                        },
                    },
                ),
                Request::Done(true) => step.notice == Some(
                    NoticeView {
                        kind: StateKind::Success,
                        title: "Path copied"@,
                        sub: total + if files.len() == 1 {
                            " file · Ctrl+Shift+V"@
                        } else {
                            " files · Ctrl+Shift+V"@
                        },
                    },
                ),
                Request::Done(false) => match (stage, event) {
                    (Stage::Home, _) => step.notice == error("Host unreachable"@, server.alias),
                    (Stage::Clipboard { .. }, _) => step.notice == error(
                        "Clipboard is busy"@,
                        "Nothing was sent"@,
                    ),
                    (Stage::Setup { .. }, _) => step.notice == error(
                        "Remote setup failed"@,
                        server.alias,
                    ),
                    (Stage::Sending { results, .. }, Event::Scp(ok)) => step.notice == error(
                        text::decimal(upload::failures(results.push(ok))) + " of "@ + total
                            + " failed"@,
                        "See the log"@,
                    ),
                    _ => false,
                },
                _ => step.notice is None,
            }
            &&& step.progress == match (stage, event) {
                (Stage::Sending { results, .. }, Event::Scp(true)) => Some(
                    Progress { done: (results.len() + 1) as usize, total: files.len() as usize },
                ),
                _ => None,
            }
        }),
{
    reveal_strlit("/");
    assert("/"@ == seq!['/']);
    reveal_strlit(" file");
    reveal_strlit(" files");
    reveal_strlit(" · Ctrl+Shift+V");
    reveal_strlit(" file · Ctrl+Shift+V");
    reveal_strlit(" files · Ctrl+Shift+V");
    assert(" file"@ + " · Ctrl+Shift+V"@ == " file · Ctrl+Shift+V"@);
    assert(" files"@ + " · Ctrl+Shift+V"@ == " files · Ctrl+Shift+V"@);
    let total = text::decimal(files.len());
    assert(total + " file"@ + " · Ctrl+Shift+V"@ == total + " file · Ctrl+Shift+V"@);
    assert(total + " files"@ + " · Ctrl+Shift+V"@ == total + " files · Ctrl+Shift+V"@);
}

/// An upload without files ends at once, with an error; any other one begins without
/// a report.
pub proof fn law_upload_begins_with_files(server: ServerView, files: Seq<PickedView>)
    ensures
        upload::begin(server, files).1.request is Done <==> files.len() == 0,
        files.len() == 0 ==> upload::begin(server, files).1.notice == Some(
            NoticeView {
                kind: StateKind::Error,
                title: "No files"@,
                sub: "Nothing readable in that drop"@,
            },
        ),
        files.len() > 0 ==> upload::begin(server, files).1.notice is None,
        upload::begin(server, files).1.progress is None,
{
}

} // verus!
