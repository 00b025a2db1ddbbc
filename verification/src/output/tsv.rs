//! The tab-separated text format: one line per open resource.
use vstd::prelude::*;

use vstd::string::StringSliceAdditionalSpecFns;

use crate::error::PrexpError;
use crate::models::{kind_name, OpenResource, ProcessSnapshot, ResourceKind};
use crate::text::{digit_char, int_dec, nat_dec, push_char, push_i64, push_str};

verus! {

/// Header line of the TSV format.
pub open spec fn tsv_header() -> Seq<char> {
    "PID\tPROCESS\tDESCRIPTOR\tKIND\tPATH\n"@
}

/// The PATH column of a resource: its path, or "-" when it has none.
pub open spec fn path_column(path: Option<String>) -> Seq<char> {
    match path {
        Some(p) => p@,
        None => "-"@,
    }
}

/// One TSV line for resource `r` of process `p`.
pub open spec fn tsv_row(p: ProcessSnapshot, r: OpenResource) -> Seq<char> {
    int_dec(p.pid as int) + "\t"@ + p.name@ + "\t"@ + int_dec(r.descriptor as int) + "\t"@
        + kind_name(r.kind) + "\t"@ + path_column(r.path) + "\n"@
}

/// The TSV lines of the resources `rs` of process `p`.
pub open spec fn tsv_rows(p: ProcessSnapshot, rs: Seq<OpenResource>) -> Seq<char>
    decreases rs.len(),
{
    if rs.len() == 0 {
        Seq::empty()
    } else {
        tsv_rows(p, rs.drop_last()) + tsv_row(p, rs.last())
    }
}

/// The TSV lines of all resources of all processes in `ps`.
pub open spec fn tsv_body(ps: Seq<ProcessSnapshot>) -> Seq<char>
    decreases ps.len(),
{
    if ps.len() == 0 {
        Seq::empty()
    } else {
        tsv_body(ps.drop_last()) + tsv_rows(ps.last(), ps.last().resources@)
    }
}

/// The whole TSV document: header, then one line per open resource.
pub open spec fn tsv_text(ps: Seq<ProcessSnapshot>) -> Seq<char> {
    tsv_header() + tsv_body(ps)
}

fn push_tsv_row(out: &mut String, p: &ProcessSnapshot, r: &OpenResource)
    ensures
        final(out)@ == old(out)@ + tsv_row(*p, *r),
{
    push_i64(out, p.pid as i64);
    push_char(out, '\t');
    push_str(out, p.name.as_str());
    push_char(out, '\t');
    push_i64(out, r.descriptor as i64);
    push_char(out, '\t');
    push_str(out, r.kind.name());
    push_char(out, '\t');
    match &r.path {
        Some(path) => push_str(out, path.as_str()),
        None => push_str(out, "-"),
    }
    push_char(out, '\n');
    proof {
        reveal_strlit("\t");
        reveal_strlit("\n");
    }
    assert(final(out)@ =~= old(out)@ + tsv_row(*p, *r));
}

/// Render process snapshots as TSV (tab-separated values): a header line,
/// then one line per open resource, with "-" for a missing path.
pub fn tsv_format(snapshots: &[ProcessSnapshot]) -> (text: String)
    ensures
        text@ == tsv_text(snapshots@),
{
    let mut out = String::new();
    push_str(&mut out, "PID\tPROCESS\tDESCRIPTOR\tKIND\tPATH\n");
    let mut i: usize = 0;
    while i < snapshots.len()
        invariant
            i <= snapshots@.len(),
            out@ == tsv_header() + tsv_body(snapshots@.take(i as int)),
        decreases snapshots@.len() - i,
    {
        let p = &snapshots[i];
        let mut j: usize = 0;
        let ghost before = out@;
        while j < p.resources.len()
            invariant
                j <= p.resources@.len(),
                out@ == before + tsv_rows(*p, p.resources@.take(j as int)),
            decreases p.resources@.len() - j,
        {
            push_tsv_row(&mut out, p, &p.resources[j]);
            assert(p.resources@.take(j + 1).drop_last() =~= p.resources@.take(j as int));
            j = j + 1;
            assert(out@ =~= before + tsv_rows(*p, p.resources@.take(j as int)));
        }
        assert(p.resources@.take(j as int) =~= p.resources@);
        assert(snapshots@.take(i + 1).drop_last() =~= snapshots@.take(i as int));
        i = i + 1;
        assert(out@ =~= tsv_header() + tsv_body(snapshots@.take(i as int)));
    }
    assert(snapshots@.take(i as int) =~= snapshots@);
    out
}

/// Appends the UTF-8 bytes of `text` to `out`.
pub fn push_utf8(out: &mut Vec<u8>, text: &str)
    ensures
        final(out)@ == old(out)@ + text.spec_bytes(),
{
    let bytes = text.as_bytes();
    let mut i: usize = 0;
    while i < bytes.len()
        invariant
            i <= bytes@.len(),
            bytes@ == text.spec_bytes(),
            out@ == old(out)@ + bytes@.take(i as int),
        decreases bytes@.len() - i,
    {
        out.push(bytes[i]);
        i = i + 1;
        assert(out@ =~= old(out)@ + bytes@.take(i as int));
    }
    assert(bytes@.take(i as int) =~= bytes@);
}

/// Write the TSV rendering of `snapshots` (UTF-8) to `writer`.
pub fn format(snapshots: &[ProcessSnapshot], writer: &mut Vec<u8>) -> (r: Result<(), PrexpError>)
    ensures
        r is Ok,
        final(writer)@ == old(writer)@ + vstd::utf8::encode_utf8(tsv_text(snapshots@)),
{
    let text = tsv_format(snapshots);
    push_utf8(writer, text.as_str());
    Ok(())
}

/// The parts of `s` between occurrences of `c` (one part when `c` does not
/// occur).
pub open spec fn split_on(s: Seq<char>, c: char) -> Seq<Seq<char>>
    decreases s.len(),
{
    if s.len() == 0 {
        seq![Seq::empty()]
    } else {
        let rest = split_on(s.drop_last(), c);
        if s.last() == c {
            rest.push(Seq::empty())
        } else {
            rest.update(rest.len() - 1, rest.last().push(s.last()))
        }
    }
}

/// Splitting always gives at least one part.
proof fn lemma_split_nonempty(s: Seq<char>, c: char)
    ensures
        split_on(s, c).len() >= 1,
    decreases s.len(),
{
    if s.len() > 0 {
        lemma_split_nonempty(s.drop_last(), c);
    }
}

/// A text without `c` is one part.
proof fn lemma_split_none(s: Seq<char>, c: char)
    requires
        !s.contains(c),
    ensures
        split_on(s, c) == seq![s],
    decreases s.len(),
{
    if s.len() > 0 {
        let d = s.drop_last();
        assert(!d.contains(c)) by {
            if d.contains(c) {
                let i = choose|i: int| 0 <= i < d.len() && d[i] == c;
                assert(s[i] == c);
            }
        }
        lemma_split_none(d, c);
        assert(s.last() != c) by {
            assert(s[s.len() - 1] == s.last());
        }
        assert(d.push(s.last()) =~= s);
        assert(split_on(s, c) =~= seq![s]);
    } else {
        assert(s =~= Seq::<char>::empty());
    }
}

/// Splitting `x`, `c`, `y` gives the parts of `x`, then those of `y`.
proof fn lemma_split_concat(x: Seq<char>, c: char, y: Seq<char>)
    ensures
        split_on(x + seq![c] + y, c) == split_on(x, c) + split_on(y, c),
    decreases y.len(),
{
    let w = x + seq![c] + y;
    if y.len() == 0 {
        assert(w =~= x.push(c));
        assert(w.drop_last() =~= x);
        assert(split_on(y, c) =~= seq![Seq::<char>::empty()]);
        assert(split_on(w, c) =~= split_on(x, c) + split_on(y, c));
    } else {
        let y0 = y.drop_last();
        lemma_split_concat(x, c, y0);
        lemma_split_nonempty(y0, c);
        assert(w.drop_last() =~= x + seq![c] + y0);
        assert(w.last() == y.last());
        let a = split_on(x, c);
        let b = split_on(y0, c);
        if y.last() == c {
            assert(split_on(w, c) =~= a + b.push(Seq::empty()));
        } else {
            assert((a + b).last() == b.last());
            assert(split_on(w, c) =~= a + b.update(b.len() - 1, b.last().push(y.last())));
        }
    }
}

/// A decimal number holds neither a tab nor a newline.
proof fn lemma_nat_dec_plain(n: nat)
    ensures
        !nat_dec(n).contains('\t'),
        !nat_dec(n).contains('\n'),
    decreases n,
{
    if n >= 10 {
        lemma_nat_dec_plain(n / 10);
        let d = nat_dec(n / 10);
        let e = nat_dec(n);
        assert(e == d.push(digit_char((n % 10) as int)));
        assert forall|i: int| 0 <= i < e.len() implies e[i] != '\t' && e[i] != '\n' by {
            if i < d.len() {
                assert(e[i] == d[i]);
                assert(d.contains(d[i]));
            }
        }
    } else {
        assert forall|i: int| 0 <= i < nat_dec(n).len() implies nat_dec(n)[i] != '\t' && nat_dec(n)[i] != '\n' by {}
    }
}

/// The same for a signed number.
proof fn lemma_int_dec_plain(n: int)
    ensures
        !int_dec(n).contains('\t'),
        !int_dec(n).contains('\n'),
{
    if n < 0 {
        lemma_nat_dec_plain((-n) as nat);
        let d = nat_dec((-n) as nat);
        let e = int_dec(n);
        assert forall|i: int| 0 <= i < e.len() implies e[i] != '\t' && e[i] != '\n' by {
            if i > 0 {
                assert(e[i] == d[i - 1]);
                assert(d.contains(d[i - 1]));
            }
        }
    } else {
        lemma_nat_dec_plain(n as nat);
    }
}

/// The kind words hold no tab.
proof fn lemma_kind_plain(k: ResourceKind)
    ensures
        !kind_name(k).contains('\t'),
{
    reveal_strlit("file");
    reveal_strlit("socket");
    reveal_strlit("pipe");
    reveal_strlit("device");
    reveal_strlit("kqueue");
    reveal_strlit("unknown");
    let w = kind_name(k);
    assert forall|i: int| 0 <= i < w.len() implies w[i] != '\t' by {}
}

/// Five tab-free fields joined by tabs split back into those fields.
proof fn lemma_split_five(f1: Seq<char>, f2: Seq<char>, f3: Seq<char>, f4: Seq<char>, f5: Seq<char>)
    requires
        !f1.contains('\t'),
        !f2.contains('\t'),
        !f3.contains('\t'),
        !f4.contains('\t'),
        !f5.contains('\t'),
    ensures
        split_on(f1 + seq!['\t'] + (f2 + seq!['\t'] + (f3 + seq!['\t'] + (f4 + seq!['\t'] + f5))), '\t')
            == seq![f1, f2, f3, f4, f5],
{
    let t = seq!['\t'];
    lemma_split_none(f1, '\t');
    lemma_split_none(f2, '\t');
    lemma_split_none(f3, '\t');
    lemma_split_none(f4, '\t');
    lemma_split_none(f5, '\t');
    lemma_split_concat(f4, '\t', f5);
    lemma_split_concat(f3, '\t', f4 + t + f5);
    lemma_split_concat(f2, '\t', f3 + t + (f4 + t + f5));
    lemma_split_concat(f1, '\t', f2 + t + (f3 + t + (f4 + t + f5)));
    assert(seq![f1] + (seq![f2] + (seq![f3] + (seq![f4] + seq![f5]))) =~= seq![f1, f2, f3, f4, f5]);
}

/// Each data line of the TSV, for a process name and path without tabs,
/// reads back as five tab-separated fields: the owning process's pid in
/// decimal, its name, the descriptor in decimal, the kind word, and the
/// path ("-" when there is none); the line ends with a newline.
pub proof fn lemma_tsv_row_fields(p: ProcessSnapshot, r: OpenResource)
    requires
        !p.name@.contains('\t'),
        r.path matches Some(x) ==> !x@.contains('\t'),
    ensures
        tsv_row(p, r).len() > 0,
        tsv_row(p, r).last() == '\n',
        split_on(tsv_row(p, r).drop_last(), '\t') == seq![
            int_dec(p.pid as int),
            p.name@,
            int_dec(r.descriptor as int),
            kind_name(r.kind),
            match r.path { Some(x) => x@, None => seq!['-'] },
        ],
{
    reveal_strlit("\t");
    reveal_strlit("\n");
    reveal_strlit("-");
    let f1 = int_dec(p.pid as int);
    let f2 = p.name@;
    let f3 = int_dec(r.descriptor as int);
    let f4 = kind_name(r.kind);
    let f5 = path_column(r.path);
    assert(f5 == match r.path { Some(x) => x@, None => seq!['-'] });
    let t = seq!['\t'];
    let row = tsv_row(p, r);
    assert(row =~= f1 + t + f2 + t + f3 + t + f4 + t + f5 + seq!['\n']);
    let line = row.drop_last();
    assert(line =~= f1 + t + (f2 + t + (f3 + t + (f4 + t + f5))));
    lemma_int_dec_plain(p.pid as int);
    lemma_int_dec_plain(r.descriptor as int);
    lemma_kind_plain(r.kind);
    assert(!f5.contains('\t')) by {
        if r.path is None {
            assert forall|i: int| 0 <= i < f5.len() implies f5[i] != '\t' by {}
        }
    }
    lemma_split_five(f1, f2, f3, f4, f5);
    assert(split_on(line, '\t') =~= seq![f1, f2, f3, f4, f5]);
}

/// The lines of one process's resources, in order.
proof fn lemma_rows_in_order(p: ProcessSnapshot, rs: Seq<OpenResource>)
    ensures
        tsv_rows(p, rs) == Seq::new(rs.len(), |j: int| tsv_row(p, rs[j])).flatten(),
    decreases rs.len(),
{
    let lines = Seq::new(rs.len(), |j: int| tsv_row(p, rs[j]));
    if rs.len() == 0 {
        assert(lines =~= Seq::<Seq<char>>::empty());
    } else {
        let d = rs.drop_last();
        lemma_rows_in_order(p, d);
        let dl = Seq::new(d.len(), |j: int| tsv_row(p, d[j]));
        assert(lines =~= dl.push(tsv_row(p, rs.last())));
        dl.lemma_flatten_push(tsv_row(p, rs.last()));
    }
}

/// The body: the lines of each process in turn.
proof fn lemma_body_in_order(ps: Seq<ProcessSnapshot>)
    ensures
        tsv_body(ps) == Seq::new(
            ps.len(),
            |i: int| Seq::new(ps[i].resources@.len(), |j: int| tsv_row(ps[i], ps[i].resources@[j])).flatten(),
        ).flatten(),
    decreases ps.len(),
{
    let blocks = Seq::new(
        ps.len(),
        |i: int| Seq::new(ps[i].resources@.len(), |j: int| tsv_row(ps[i], ps[i].resources@[j])).flatten(),
    );
    if ps.len() == 0 {
        assert(blocks =~= Seq::<Seq<char>>::empty());
    } else {
        let d = ps.drop_last();
        lemma_body_in_order(d);
        let db = Seq::new(
            d.len(),
            |i: int| Seq::new(d[i].resources@.len(), |j: int| tsv_row(d[i], d[i].resources@[j])).flatten(),
        );
        lemma_rows_in_order(ps.last(), ps.last().resources@);
        assert(blocks =~= db.push(blocks.last()));
        assert(blocks.last() == tsv_rows(ps.last(), ps.last().resources@));
        db.lemma_flatten_push(blocks.last());
    }
}

/// The TSV document is its header line, then one line per open resource:
/// the processes in order, and within each its resources in order.
pub proof fn lemma_tsv_document(ps: Seq<ProcessSnapshot>)
    ensures
        tsv_text(ps) == "PID\tPROCESS\tDESCRIPTOR\tKIND\tPATH\n"@ + Seq::new(
            ps.len(),
            |i: int| Seq::new(ps[i].resources@.len(), |j: int| tsv_row(ps[i], ps[i].resources@[j])).flatten(),
        ).flatten(),
{
    lemma_body_in_order(ps);
}

} // verus!
