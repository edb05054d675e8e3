//! The job listing of `slumber status`: which saved jobs are shown, in
//! which order, and how each one reads.
use crate::exit::{exit_status_text, exit_status_text_spec, printable_status};
use crate::records::{copy_meta, ExitStatusRecord, JobMeta};
use crate::text::{chars_of, nat_text, push_char, push_nat};
use vstd::prelude::*;

verus! {

/// `s` padded with spaces on the right to `width` characters (`{:<width}`);
/// a longer `s` is kept whole.
pub open spec fn pad_right(s: Seq<char>, width: nat) -> Seq<char> {
    if s.len() >= width {
        s
    } else {
        s + Seq::new((width - s.len()) as nat, |i: int| ' ')
    }
}

/// Appends `s` padded to `width` characters.
pub fn push_padded(out: &mut String, s: &str, width: usize)
    ensures
        final(out)@ == old(out)@ + pad_right(s@, width as nat),
{
    let ghost start = out@;
    out.append(s);
    let n = chars_of(s).len();
    let mut k = n;
    while k < width
        invariant
            n == s@.len(),
            n <= k <= width || (k == n && n >= width),
            out@ == start + s@ + Seq::new((k - n) as nat, |i: int| ' '),
        decreases width - k,
    {
        push_char(out, ' ');
        k = k + 1;
        assert(out@ =~= start + s@ + Seq::new((k - n) as nat, |i: int| ' '));
    }
    proof {
        if n >= width {
            assert(Seq::new(0, |i: int| ' ') =~= Seq::<char>::empty());
            assert(out@ =~= start + pad_right(s@, width as nat));
        } else {
            assert(out@ =~= start + pad_right(s@, width as nat));
        }
    }
}

/// Which jobs the listing shows, reading `metas` from the front with
/// `completed` woken-up jobs already shown or passed over: every job not yet
/// woken up, and woken-up jobs while no more than `limit` of them have been
/// met.
pub open spec fn select_from(metas: Seq<JobMeta>, limit: nat, completed: nat) -> Seq<JobMeta>
    decreases metas.len(),
{
    if metas.len() == 0 {
        Seq::empty()
    } else {
        let m = metas[0];
        let rest = metas.drop_first();
        if m.resumed_at is None {
            seq![m] + select_from(rest, limit, completed)
        } else if completed + 1 <= limit {
            seq![m] + select_from(rest, limit, completed + 1)
        } else {
            select_from(rest, limit, completed + 1)
        }
    }
}

/// The jobs that the listing shows, in their order.
pub fn select_status_jobs(metas: &Vec<JobMeta>, limit: usize) -> (r: Vec<JobMeta>)
    ensures
        r@ == select_from(metas@, limit as nat, 0),
{
    let mut r: Vec<JobMeta> = Vec::new();
    let mut completed: usize = 0;
    let mut i: usize = 0;
    assert(metas@.skip(0) =~= metas@);
    while i < metas.len()
        invariant
            i <= metas@.len(),
            completed <= i,
            r@ + select_from(metas@.skip(i as int), limit as nat, completed as nat) == select_from(
                metas@,
                limit as nat,
                0,
            ),
        decreases metas@.len() - i,
    {
        let ghost rest = metas@.skip(i as int);
        let ghost old_r = r@;
        let ghost old_completed = completed;
        assert(rest.drop_first() =~= metas@.skip(i + 1));
        assert(rest[0] == metas@[i as int]);
        let m = &metas[i];
        if m.resumed_at.is_none() {
            r.push(copy_meta(m));
        } else {
            completed = completed + 1;
            if completed <= limit {
                r.push(copy_meta(m));
            }
        }
        proof {
            let tail = select_from(metas@.skip(i + 1), limit as nat, completed as nat);
            if rest[0].resumed_at is None || old_completed + 1 <= limit {
                assert(r@ =~= old_r + seq![rest[0]]);
                assert(r@ + tail =~= old_r + (seq![rest[0]] + tail));
            } else {
                assert(r@ == old_r);
            }
        }
        i = i + 1;
    }
    assert(r@ + Seq::<JobMeta>::empty() =~= r@);
    r
}

/// The jobs of `s` not yet woken up, in order.
pub open spec fn unresolved(s: Seq<JobMeta>) -> Seq<JobMeta>
    decreases s.len(),
{
    if s.len() == 0 {
        Seq::empty()
    } else if s[0].resumed_at is None {
        seq![s[0]] + unresolved(s.drop_first())
    } else {
        unresolved(s.drop_first())
    }
}

/// How many jobs of `s` have been woken up.
pub open spec fn resolved_count(s: Seq<JobMeta>) -> nat
    decreases s.len(),
{
    if s.len() == 0 {
        0
    } else if s[0].resumed_at is None {
        resolved_count(s.drop_first())
    } else {
        resolved_count(s.drop_first()) + 1
    }
}

/// The smaller of two numbers.
pub open spec fn min_nat(a: nat, b: nat) -> nat {
    if a <= b {
        a
    } else {
        b
    }
}

proof fn lemma_front(m: JobMeta, x: Seq<JobMeta>)
    ensures
        (seq![m] + x)[0] == m,
        (seq![m] + x).drop_first() == x,
        (seq![m] + x).len() > 0,
{
    assert((seq![m] + x).drop_first() =~= x);
}

/// The listing's limit applies to woken-up jobs only: every job not yet
/// woken up is shown, in order, and of the woken-up jobs the first
/// `limit` (less those already counted) are shown.
pub proof fn lemma_listing_shows_unresolved(metas: Seq<JobMeta>, limit: nat, completed: nat)
    ensures
        unresolved(select_from(metas, limit, completed)) == unresolved(metas),
        resolved_count(select_from(metas, limit, completed)) == min_nat(
            resolved_count(metas),
            if completed <= limit {
                (limit - completed) as nat
            } else {
                0
            },
        ),
    decreases metas.len(),
{
    if metas.len() > 0 {
        let m = metas[0];
        let rest = metas.drop_first();
        if m.resumed_at is None {
            lemma_listing_shows_unresolved(rest, limit, completed);
            lemma_front(m, select_from(rest, limit, completed));
        } else if completed + 1 <= limit {
            lemma_listing_shows_unresolved(rest, limit, completed + 1);
            lemma_front(m, select_from(rest, limit, completed + 1));
        } else {
            lemma_listing_shows_unresolved(rest, limit, completed + 1);
        }
    }
}

/// The status word of a job: its exit status when it has one, otherwise
/// `unknown` when monitoring stopped with an error, `running` otherwise.
pub open spec fn status_word(meta: JobMeta) -> Seq<char> {
    match meta.exit_status {
        Some(status) => exit_status_text_spec(status),
        None => if meta.resume_error is Some {
            "unknown"@
        } else {
            "running"@
        },
    }
}

/// The process column: the process group, or `-`.
pub open spec fn pid_word(meta: JobMeta) -> Seq<char> {
    match meta.pgid {
        Some(p) => nat_text(p as nat),
        None => "-"@,
    }
}

/// The target column: the SSH destination, or `local`.
pub open spec fn target_word(meta: JobMeta) -> Seq<char> {
    match meta.ssh_target {
        Some(t) => t@,
        None => "local"@,
    }
}

/// The listing's header line.
pub open spec fn status_header() -> Seq<char> {
    pad_right("JOB"@, 30) + " "@ + pad_right("PID"@, 10) + " "@ + pad_right("TARGET"@, 18) + " "@
        + pad_right("STATUS"@, 10) + " COMMAND"@
}

/// The row of a job: identifier, process, target and status in columns of
/// 30, 10, 18 and 10 characters, then the command.
pub open spec fn status_row(meta: JobMeta) -> Seq<char> {
    pad_right(meta.job_id@, 30) + " "@ + pad_right(pid_word(meta), 10) + " "@ + pad_right(
        target_word(meta),
        18,
    ) + " "@ + pad_right(status_word(meta), 10) + " "@ + meta.command@
}

/// The line under a job's row, if any: a monitoring stop (no exit status)
/// or a failed wake-up with its message; a completed wake-up; or a pending
/// one for a finished job.
pub open spec fn status_note(meta: JobMeta) -> Option<Seq<char>> {
    match meta.resume_error {
        Some(e) => if meta.exit_status is None {
            Some("  monitoring: STOPPED: "@ + e@)
        } else {
            Some("  wake-up: FAILED: "@ + e@)
        },
        None => if meta.resumed_at is Some {
            Some("  wake-up: complete"@)
        } else if meta.exit_status is Some {
            Some("  wake-up: pending (saved state; query daemon status for live activity)"@)
        } else {
            None
        },
    }
}

/// The lines shown for the jobs `s`: each row, followed by its note.
pub open spec fn job_lines(s: Seq<JobMeta>) -> Seq<Seq<char>>
    decreases s.len(),
{
    if s.len() == 0 {
        Seq::empty()
    } else {
        let m = s.last();
        job_lines(s.drop_last()) + seq![status_row(m)] + match status_note(m) {
            Some(n) => seq![n],
            None => Seq::empty(),
        }
    }
}

/// The listing for `metas`, newest first: `No jobs.` when nothing is shown,
/// otherwise the header and the lines of the shown jobs.
pub open spec fn status_listing(metas: Seq<JobMeta>, limit: nat) -> Seq<Seq<char>> {
    let shown = select_from(metas, limit, 0);
    if shown.len() == 0 {
        seq!["No jobs."@]
    } else {
        seq![status_header()] + job_lines(shown)
    }
}

/// Whether every exit status in `s` can be shown.
pub open spec fn all_printable(s: Seq<JobMeta>) -> bool {
    forall|i: int| 0 <= i < s.len() ==> ((#[trigger] s[i]).exit_status matches Some(st) ==> printable_status(st))
}

/// The row of one job.
pub fn format_status_row(meta: &JobMeta) -> (t: String)
    requires
        meta.exit_status matches Some(st) ==> printable_status(st),
    ensures
        t@ == status_row(*meta),
{
    let mut t = String::new();
    push_padded(&mut t, meta.job_id.as_str(), 30);
    t.append(" ");
    let pid = match meta.pgid {
        Some(p) => {
            let mut w = String::new();
            push_nat(&mut w, p as u64);
            w
        },
        None => "-".to_owned(),
    };
    push_padded(&mut t, pid.as_str(), 10);
    t.append(" ");
    match &meta.ssh_target {
        Some(target) => push_padded(&mut t, target.as_str(), 18),
        None => push_padded(&mut t, "local", 18),
    }
    t.append(" ");
    let status = match &meta.exit_status {
        Some(st) => exit_status_text(st),
        None => if meta.resume_error.is_some() {
            "unknown".to_owned()
        } else {
            "running".to_owned()
        },
    };
    push_padded(&mut t, status.as_str(), 10);
    t.append(" ");
    t.append(meta.command.as_str());
    proof {
        assert(pid@ == pid_word(*meta)) by {
            if meta.pgid is Some {
                assert(pid@ =~= nat_text(meta.pgid->0 as nat));
            }
        }
        assert(t@ =~= status_row(*meta));
    }
    t
}

/// The note under the row of one job, if any.
pub fn format_status_note(meta: &JobMeta) -> (n: Option<String>)
    ensures
        match status_note(*meta) {
            Some(s) => n matches Some(t) && t@ == s,
            None => n is None,
        },
{
    match &meta.resume_error {
        Some(e) => {
            let mut t = if meta.exit_status.is_none() {
                "  monitoring: STOPPED: ".to_owned()
            } else {
                "  wake-up: FAILED: ".to_owned()
            };
            t.append(e.as_str());
            Some(t)
        },
        None => {
            if meta.resumed_at.is_some() {
                Some("  wake-up: complete".to_owned())
            } else if meta.exit_status.is_some() {
                Some(
                    "  wake-up: pending (saved state; query daemon status for live activity)".to_owned(),
                )
            } else {
                None
            }
        },
    }
}

/// The lines of `slumber status --limit <limit>` for the saved jobs `metas`,
/// newest first.
pub fn status_lines(metas: &Vec<JobMeta>, limit: usize) -> (lines: Vec<String>)
    requires
        all_printable(metas@),
    ensures
        crate::text::views(lines@) == status_listing(metas@, limit as nat),
{
    let shown = select_status_jobs(metas, limit);
    let mut lines: Vec<String> = Vec::new();
    if shown.len() == 0 {
        lines.push("No jobs.".to_owned());
        assert(crate::text::views(lines@) =~= status_listing(metas@, limit as nat));
        return lines;
    }
    proof {
        lemma_selection_printable(metas@, limit as nat, 0);
    }
    let mut header = String::new();
    push_padded(&mut header, "JOB", 30);
    header.append(" ");
    push_padded(&mut header, "PID", 10);
    header.append(" ");
    push_padded(&mut header, "TARGET", 18);
    header.append(" ");
    push_padded(&mut header, "STATUS", 10);
    header.append(" COMMAND");
    lines.push(header);
    let mut i: usize = 0;
    while i < shown.len()
        invariant
            i <= shown@.len(),
            all_printable(shown@),
            shown@ == select_from(metas@, limit as nat, 0),
            crate::text::views(lines@) == seq![status_header()] + job_lines(shown@.take(i as int)),
        decreases shown@.len() - i,
    {
        let ghost before = lines@;
        let ghost m = shown@[i as int];
        let ghost prev = shown@.take(i as int);
        let ghost next = shown@.take(i + 1);
        assert(next.drop_last() =~= prev);
        assert(next.last() == m);
        let ghost note_lines = match status_note(m) {
            Some(n) => seq![n],
            None => Seq::empty(),
        };
        assert(job_lines(next) == job_lines(prev) + seq![status_row(m)] + note_lines);
        let row = format_status_row(&shown[i]);
        lines.push(row);
        match format_status_note(&shown[i]) {
            Some(n) => lines.push(n),
            None => {},
        }
        assert(crate::text::views(lines@) =~= crate::text::views(before) + seq![status_row(m)] + note_lines);
        i = i + 1;
    }
    assert(shown@.take(shown@.len() as int) =~= shown@);
    lines
}

proof fn lemma_selection_printable(metas: Seq<JobMeta>, limit: nat, completed: nat)
    requires
        all_printable(metas),
    ensures
        all_printable(select_from(metas, limit, completed)),
    decreases metas.len(),
{
    if metas.len() > 0 {
        let rest = metas.drop_first();
        assert(all_printable(rest)) by {
            assert forall|i: int| 0 <= i < rest.len() implies ((#[trigger] rest[i]).exit_status matches Some(st) ==> printable_status(st)) by {
                assert(rest[i] == metas[i + 1]);
            }
        }
        let m = metas[0];
        if m.resumed_at is None {
            lemma_selection_printable(rest, limit, completed);
        } else {
            lemma_selection_printable(rest, limit, completed + 1);
        }
        let s = select_from(metas, limit, completed);
        assert forall|i: int| 0 <= i < s.len() implies ((#[trigger] s[i]).exit_status matches Some(st) ==> printable_status(st)) by {
            if (m.resumed_at is None || completed + 1 <= limit) && i > 0 {
                let t = if m.resumed_at is None {
                    select_from(rest, limit, completed)
                } else {
                    select_from(rest, limit, completed + 1)
                };
                assert(s == seq![m] + t);
                assert(s[i] == t[i - 1]);
            }
        }
    }
}

/// Whether `order` lists the positions of `keys` newest first, as a stable
/// sort by decreasing key does: every position once, keys never increasing,
/// and equal keys in the order they were given.
pub open spec fn recent_order_spec(keys: Seq<u64>, order: Seq<usize>) -> bool {
    &&& order.len() == keys.len()
    &&& forall|k: int| 0 <= k < order.len() ==> #[trigger] order[k] < keys.len()
    &&& forall|k: int, l: int| 0 <= k < l < order.len() ==> order[k] != order[l]
    &&& forall|k: int, l: int|
        0 <= k < l < order.len() ==> keys[order[k] as int] >= keys[order[l] as int]
    &&& forall|k: int, l: int|
        0 <= k < l < order.len() && keys[order[k] as int] == keys[order[l] as int] ==> order[k]
            < order[l]
}

/// The positions of `keys`, newest (largest key) first; equal keys keep
/// their order.
pub fn recent_order(keys: &Vec<u64>) -> (order: Vec<usize>)
    ensures
        recent_order_spec(keys@, order@),
{
    let mut order: Vec<usize> = Vec::new();
    let mut i: usize = 0;
    while i < keys.len()
        invariant
            i <= keys@.len(),
            order@.len() == i,
            forall|k: int| 0 <= k < order@.len() ==> #[trigger] order@[k] < i,
            forall|k: int, l: int| 0 <= k < l < order@.len() ==> order@[k] != order@[l],
            forall|k: int, l: int|
                0 <= k < l < order@.len() ==> keys@[order@[k] as int] >= keys@[order@[l] as int],
            forall|k: int, l: int|
                0 <= k < l < order@.len() && keys@[order@[k] as int] == keys@[order@[l] as int]
                    ==> order@[k] < order@[l],
        decreases keys@.len() - i,
    {
        let key = keys[i];
        let mut p: usize = 0;
        while p < order.len() && keys[order[p]] >= key
            invariant
                p <= order@.len(),
                order@.len() == i,
                i < keys@.len(),
                key == keys@[i as int],
                forall|k: int| 0 <= k < order@.len() ==> #[trigger] order@[k] < i,
                forall|q: int| 0 <= q < p ==> keys@[order@[q] as int] >= key,
            decreases order@.len() - p,
        {
            p = p + 1;
        }
        let ghost old_order = order@;
        order.insert(p, i);
        proof {
            let o = order@;
            assert(o == old_order.insert(p as int, i));
            assert forall|k: int| 0 <= k < o.len() implies #[trigger] o[k] < i + 1 by {
                if k < p {
                    assert(o[k] == old_order[k]);
                } else if k > p {
                    assert(o[k] == old_order[k - 1]);
                }
            }
            assert forall|k: int, l: int| 0 <= k < l < o.len() implies o[k] != o[l] && keys@[o[k] as int] >= keys@[o[l] as int] && (keys@[o[k] as int] == keys@[o[l] as int] ==> o[k] < o[l]) by {
                if k < p {
                    assert(o[k] == old_order[k]);
                    if l < p {
                        assert(o[l] == old_order[l]);
                    } else if l == p {
                        assert(o[l] == i);
                    } else {
                        assert(o[l] == old_order[l - 1]);
                        assert(keys@[old_order[p as int] as int] < key);
                        if p < l - 1 {
                            assert(keys@[old_order[p as int] as int] >= keys@[old_order[l - 1] as int]);
                        }
                    }
                } else if k == p {
                    assert(o[k] == i);
                    assert(o[l] == old_order[l - 1]);
                    assert(keys@[old_order[p as int] as int] < key);
                    if p < l - 1 {
                        assert(keys@[old_order[p as int] as int] >= keys@[old_order[l - 1] as int]);
                    }
                } else {
                    assert(o[k] == old_order[k - 1]);
                    assert(o[l] == old_order[l - 1]);
                }
            }
        }
        i = i + 1;
    }
    order
}

/// The creation times of the jobs, in order.
pub open spec fn created_keys(metas: Seq<JobMeta>) -> Seq<u64> {
    metas.map_values(|m: JobMeta| m.created_at)
}

/// The `limit` most recently created jobs, newest first; jobs created at
/// the same second keep their order.
pub fn order_recent(metas: &Vec<JobMeta>, limit: usize) -> (r: Vec<JobMeta>)
    ensures
        r@.len() == min_nat(metas@.len(), limit as nat),
        exists|order: Seq<usize>|
            recent_order_spec(created_keys(metas@), order) && forall|k: int|
                0 <= k < r@.len() ==> #[trigger] r@[k] == metas@[order[k] as int],
{
    let mut keys: Vec<u64> = Vec::new();
    let mut j: usize = 0;
    while j < metas.len()
        invariant
            j <= metas@.len(),
            keys@ == created_keys(metas@.take(j as int)),
        decreases metas@.len() - j,
    {
        keys.push(metas[j].created_at);
        j = j + 1;
        assert(keys@ =~= created_keys(metas@.take(j as int)));
    }
    assert(metas@.take(metas@.len() as int) =~= metas@);
    let order = recent_order(&keys);
    let n = if limit < metas.len() {
        limit
    } else {
        metas.len()
    };
    let mut r: Vec<JobMeta> = Vec::new();
    let mut k: usize = 0;
    while k < n
        invariant
            k <= n <= metas@.len(),
            n <= order@.len(),
            recent_order_spec(keys@, order@),
            keys@.len() == metas@.len(),
            r@.len() == k,
            forall|q: int| 0 <= q < k ==> #[trigger] r@[q] == metas@[order@[q] as int],
        decreases n - k,
    {
        assert(order@[k as int] < keys@.len());
        r.push(copy_meta(&metas[order[k]]));
        k = k + 1;
    }
    assert(recent_order_spec(created_keys(metas@), order@));
    r
}

proof fn lemma_order_covers(keys: Seq<u64>, order: Seq<usize>, y: int)
    requires
        recent_order_spec(keys, order),
        0 <= y < keys.len(),
    ensures
        exists|p: int| 0 <= p < order.len() && order[p] == y,
{
    let n = keys.len() as int;
    let oi = order.map_values(|x: usize| x as int);
    assert(oi.no_duplicates()) by {
        assert forall|i: int, j: int| 0 <= i < oi.len() && 0 <= j < oi.len() && i != j implies oi[i]
            != oi[j] by {
            if i < j {
                assert(order[i] != order[j]);
            } else {
                assert(order[j] != order[i]);
            }
        }
    }
    oi.unique_seq_to_set();
    vstd::set_lib::lemma_int_range(0, n);
    assert(oi.to_set().subset_of(vstd::set_lib::set_int_range(0, n))) by {
        assert forall|v: int| oi.to_set().contains(v) implies vstd::set_lib::set_int_range(0, n).contains(v) by {
            let i = choose|i: int| 0 <= i < oi.len() && oi[i] == v;
            assert(order[i] < keys.len());
        }
    }
    vstd::set_lib::lemma_subset_equality(oi.to_set(), vstd::set_lib::set_int_range(0, n));
    assert(vstd::set_lib::set_int_range(0, n).contains(y));
    assert(oi.to_set().contains(y));
    let p = choose|p: int| 0 <= p < oi.len() && oi[p] == y;
    assert(order[p] == y);
}

proof fn lemma_orders_agree_upto(keys: Seq<u64>, a: Seq<usize>, b: Seq<usize>, k: int)
    requires
        recent_order_spec(keys, a),
        recent_order_spec(keys, b),
        0 <= k <= keys.len(),
    ensures
        forall|j: int| 0 <= j < k ==> a[j] == b[j],
    decreases k,
{
    if k > 0 {
        lemma_orders_agree_upto(keys, a, b, k - 1);
        let i = k - 1;
        if a[i] != b[i] {
            let x = a[i];
            let y = b[i];
            lemma_order_covers(keys, a, y as int);
            lemma_order_covers(keys, b, x as int);
            let p = choose|p: int| 0 <= p < a.len() && a[p] == y;
            let q = choose|q: int| 0 <= q < b.len() && b[q] == x;
            if p < i {
                assert(b[p] == a[p]);
                assert(b[p] != b[i]);
            }
            if q < i {
                assert(a[q] == b[q]);
                assert(a[q] != a[i]);
            }
            assert(i < p && i < q);
            assert(keys[x as int] >= keys[y as int]);
            assert(keys[y as int] >= keys[x as int]);
            assert(x < y);
            assert(y < x);
        }
    }
}

/// The newest-first order is fully determined: any two orders that list the
/// positions newest first, with equal keys kept in the order given, are the
/// same order.
pub proof fn lemma_recent_order_is_unique(keys: Seq<u64>, a: Seq<usize>, b: Seq<usize>)
    requires
        recent_order_spec(keys, a),
        recent_order_spec(keys, b),
    ensures
        a == b,
{
    lemma_orders_agree_upto(keys, a, b, keys.len() as int);
    assert(a =~= b);
}


/// A job whose exit status is recorded shows that status in the listing,
/// whatever its wake-up state.
pub proof fn lemma_recorded_status_is_shown(meta: JobMeta, status: ExitStatusRecord)
    requires
        meta.exit_status == Some(status),
    ensures
        status_word(meta) == exit_status_text_spec(status),
        status_row(meta) == pad_right(meta.job_id@, 30) + " "@ + pad_right(pid_word(meta), 10) + " "@
            + pad_right(target_word(meta), 18) + " "@ + pad_right(exit_status_text_spec(status), 10)
            + " "@ + meta.command@,
{
}

} // verus!
