//! Which pin lists the map of a machine offers, line by line.

use vstd::prelude::*;
use crate::miner::topo;
use crate::miner::topo::{Cpu, Topology};
use crate::text;

verus! {

/// Whether a line of `t` begins at `i`.
pub open spec fn begins_line(t: Seq<char>, i: int) -> bool {
    0 <= i <= t.len() && (i == 0 || t[i - 1] == '\n')
}

/// Whether a line of `t` that begins at `i` begins with `p`.
pub open spec fn offers_at(t: Seq<char>, p: Seq<char>, i: int) -> bool {
    begins_line(t, i) && text::stands(t, p, i)
}

/// Whether some line of `t` begins with `p`.
pub open spec fn offers(t: Seq<char>, p: Seq<char>) -> bool {
    exists|i: int| #[trigger] offers_at(t, p, i)
}

/// How the line begins that offers one processor for each core.
pub open spec fn per_core() -> Seq<char> {
    "    one thread per core   --cpu-affinity "@
}

/// How the line begins that offers the fast processors.
pub open spec fn per_class() -> Seq<char> {
    "    performance cores     --cpu-affinity "@
}

/// How the line begins that offers every processor.
pub open spec fn everything() -> Seq<char> {
    "    every processor       --threads "@
}

// ---------------------------------------------------------------------------
// Texts of whole lines

/// Whether a text is within one line.
pub open spec fn flat(t: Seq<char>) -> bool {
    forall|i: int| 0 <= i < t.len() ==> #[trigger] t[i] != '\n'
}

/// Whether a text is made of whole lines.
spec fn closed(t: Seq<char>) -> bool {
    t.len() == 0 || t.last() == '\n'
}

/// Whether the text from `i` on is four blanks and then `c`.
spec fn indents(t: Seq<char>, c: char, i: int) -> bool {
    0 <= i && i + 4 < t.len() && t[i] == ' ' && t[i + 1] == ' ' && t[i + 2] == ' ' && t[i + 3] == ' '
        && t[i + 4] == c
}

/// Whether no line of the text begins with four blanks and then `c`.
spec fn free(t: Seq<char>, c: char) -> bool {
    forall|i: int| #[trigger] begins_line(t, i) ==> !indents(t, c, i)
}

proof fn lemma_free_add(a: Seq<char>, b: Seq<char>, c: char)
    requires
        free(a, c),
        closed(a),
        free(b, c),
        closed(b),
        c != '\n',
    ensures
        free(a + b, c),
        closed(a + b),
{
    let t = a + b;
    assert forall|i: int| #[trigger] begins_line(t, i) implies !indents(t, c, i) by {
        if i < a.len() {
            assert(begins_line(a, i));
            if i + 4 >= a.len() {
                assert(t[a.len() - 1] == '\n');
            }
        } else {
            assert(begins_line(b, i - a.len()));
        }
    }
}

/// A line that is not four blanks and then `c`.
proof fn lemma_free_line(l: Seq<char>, c: char)
    requires
        flat(l),
        !indents(l, c, 0),
        c != '\n',
    ensures
        free(l + seq!['\n'], c),
        closed(l + seq!['\n']),
{
    let t = l + seq!['\n'];
    assert forall|i: int| #[trigger] begins_line(t, i) implies !indents(t, c, i) by {
        if 0 < i <= l.len() {
            assert(t[i - 1] == l[i - 1]);
        }
    }
}

proof fn lemma_flat_add(a: Seq<char>, b: Seq<char>)
    requires
        flat(a),
        flat(b),
    ensures
        flat(a + b),
{
    assert forall|i: int| 0 <= i < (a + b).len() implies #[trigger] (a + b)[i] != '\n' by {
        if i < a.len() {
            assert((a + b)[i] == a[i]);
        } else {
            assert((a + b)[i] == b[i - a.len()]);
        }
    }
}

proof fn lemma_flat_dec(n: nat)
    ensures
        flat(text::dec(n)),
        text::dec(n).len() > 0,
        text::dec(n)[0] != ' ',
{
    text::lemma_dec(n);
    assert forall|i: int| 0 <= i < text::dec(n).len() implies #[trigger] text::dec(n)[i] != '\n' by {
        assert(48 <= text::dec(n)[i] as u32 <= 57);
    }
    assert(48 <= text::dec(n)[0] as u32 <= 57);
}

proof fn lemma_flat_left(s: Seq<char>, w: nat)
    requires
        flat(s),
    ensures
        flat(topo::left(s, w)),
{
    if s.len() < w {
        lemma_flat_add(s, Seq::new((w - s.len()) as nat, |i: int| ' '));
    }
}

proof fn lemma_flat_commas(v: Seq<usize>)
    ensures
        flat(topo::commas(v)),
    decreases v.len(),
{
    if v.len() == 1 {
        lemma_flat_dec(v[0] as nat);
    } else if v.len() > 1 {
        lemma_flat_commas(v.drop_last());
        reveal_strlit(",");
        lemma_flat_add(topo::commas(v.drop_last()), ","@);
        lemma_flat_dec(v.last() as nat);
        lemma_flat_add(topo::commas(v.drop_last()) + ","@, text::dec(v.last() as nat));
    }
}

proof fn lemma_flat_strides(v: Seq<u64>)
    ensures
        flat(topo::strides_text(v)),
    decreases v.len(),
{
    reveal_strlit("n/n+");
    reveal_strlit(", n/n+");
    if v.len() == 1 {
        lemma_flat_dec(v[0] as nat);
        lemma_flat_add("n/n+"@, text::dec(v[0] as nat));
    } else if v.len() > 1 {
        let h = topo::strides_text(v.drop_last());
        lemma_flat_strides(v.drop_last());
        lemma_flat_add(h, ", n/n+"@);
        lemma_flat_dec(v.last() as nat);
        lemma_flat_add(h + ", n/n+"@, text::dec(v.last() as nat));
    }
}

proof fn lemma_flat_range(a: usize, b: usize)
    ensures
        flat(topo::range_text(a, b)),
{
    reveal_strlit("-");
    lemma_flat_dec(a as nat);
    lemma_flat_dec(b as nat);
    if a != b {
        lemma_flat_add(text::dec(a as nat), "-"@);
        lemma_flat_add(text::dec(a as nat) + "-"@, text::dec(b as nat));
    }
}

proof fn lemma_flat_list(v: Seq<usize>, i: int)
    ensures
        flat(topo::list_text(v, i)),
    decreases v.len() - i,
{
    if 0 <= i < v.len() {
        let e = topo::run_end(v, i);
        topo::lemma_run_end(v, i);
        let t = topo::range_text(v[i], v[e]);
        lemma_flat_range(v[i], v[e]);
        if e + 1 < v.len() {
            reveal_strlit(",");
            lemma_flat_list(v, e + 1);
            lemma_flat_add(t, ","@);
            lemma_flat_add(t + ","@, topo::list_text(v, e + 1));
        }
    }
}

proof fn lemma_flat_label(cpus: Seq<Cpu>, class: Option<u8>)
    ensures
        flat(topo::label(cpus, class)),
{
    reveal_strlit("-");
    reveal_strlit("P");
    reveal_strlit("E");
    match class {
        Some(c) => lemma_flat_dec(c as nat),
        None => {},
    }
}

proof fn lemma_flat_l2(c: Cpu, n: nat)
    ensures
        flat(topo::l2_text(c, n)),
{
    reveal_strlit("-");
    reveal_strlit(" KiB");
    reveal_strlit(" KiB shared by ");
    reveal_strlit(" CPUs");
    match c.l2_kib {
        None => {},
        Some(k) => {
            let d = text::dec(k as nat);
            lemma_flat_dec(k as nat);
            lemma_flat_add(d, " KiB"@);
            match c.l2_shared {
                Some(m) => {
                    let e = text::dec(m as nat);
                    lemma_flat_dec(m as nat);
                    lemma_flat_add(d, " KiB shared by "@);
                    lemma_flat_add(d + " KiB shared by "@, e);
                    lemma_flat_add(d + " KiB shared by "@ + e, " CPUs"@);
                },
                None => {},
            }
        },
    }
}

// ---------------------------------------------------------------------------
// The parts of the map

/// A character that begins a line of pin lists.
spec fn is_mark(c: char) -> bool {
    c == 'o' || c == 'p' || c == 'e'
}

proof fn lemma_nl()
    ensures
        "\n"@ == seq!['\n'],
{
    reveal_strlit("\n");
    assert("\n"@ =~= seq!['\n']);
}

/// The line that counts sockets, cores and processors.
spec fn machine_line(cpus: Seq<Cpu>) -> Seq<char> {
    "  machine  "@ + topo::sockets_text(cpus) + ", "@ + topo::cores_text(cpus) + ", "@ + text::dec(
        cpus.len(),
    ) + " logical processors"@
}

proof fn lemma_machine_line(cpus: Seq<Cpu>)
    ensures
        flat(machine_line(cpus)),
        machine_line(cpus).len() > 4,
        machine_line(cpus)[2] != ' ',
{
    reveal_strlit("  machine  ");
    reveal_strlit(", ");
    reveal_strlit(" socket(s)");
    reveal_strlit("sockets unknown");
    reveal_strlit(" physical cores");
    reveal_strlit("physical cores unknown");
    reveal_strlit(" logical processors");
    let a = topo::sockets_text(cpus);
    let b = topo::cores_text(cpus);
    let n = topo::ranks_of_packages(cpus).len();
    lemma_flat_dec(n);
    lemma_flat_add(text::dec(n), " socket(s)"@);
    lemma_flat_dec(topo::groups(cpus).len());
    lemma_flat_add(text::dec(topo::groups(cpus).len()), " physical cores"@);
    lemma_flat_dec(cpus.len());
    let t = "  machine  "@;
    lemma_flat_add(t, a);
    lemma_flat_add(t + a, ", "@);
    lemma_flat_add(t + a + ", "@, b);
    lemma_flat_add(t + a + ", "@ + b, ", "@);
    lemma_flat_add(t + a + ", "@ + b + ", "@, text::dec(cpus.len()));
    lemma_flat_add(t + a + ", "@ + b + ", "@ + text::dec(cpus.len()), " logical processors"@);
    assert(machine_line(cpus)[2] == t[2]);
}

proof fn lemma_head_free(source: Seq<char>, cpus: Seq<Cpu>, c: char)
    requires
        flat(source),
        is_mark(c),
    ensures
        free(topo::head_text(Seq::empty(), source, cpus), c),
        closed(topo::head_text(Seq::empty(), source, cpus)),
{
    let nl = seq!['\n'];
    lemma_nl();
    reveal_strlit("plaine-miner topology\n\n");
    reveal_strlit("");
    reveal_strlit("  source   ");
    reveal_strlit("\n  machine  ");
    reveal_strlit("  machine  ");
    reveal_strlit(" logical processors\n");
    reveal_strlit(" logical processors");
    let a = "plaine-miner topology\n\n"@;
    let s = "  source   "@ + source;
    let m = machine_line(cpus);
    assert(free(a, c)) by {
        assert forall|i: int| #[trigger] begins_line(a, i) implies !indents(a, c, i) by {
            assert(a[0] == 'p');
        }
    }
    lemma_flat_add("  source   "@, source);
    assert(s[2] == 's');
    lemma_free_line(s, c);
    lemma_machine_line(cpus);
    lemma_free_line(m, c);
    lemma_free_add(a, s + nl, c);
    lemma_free_add(a + (s + nl), m + nl, c);
    assert("\n  machine  "@ =~= nl + "  machine  "@);
    assert(" logical processors\n"@ =~= " logical processors"@ + nl);
    assert(topo::head_text(Seq::empty(), source, cpus) =~= a + (s + nl) + (m + nl));
}

proof fn lemma_core_line_free(cpus: Seq<Cpu>, g: Seq<usize>, c: char)
    requires
        is_mark(c),
    ensures
        free(topo::core_line(cpus, g), c),
        closed(topo::core_line(cpus, g)),
{
    reveal_strlit("");
    reveal_strlit("  ");
    reveal_strlit(" ");
    lemma_nl();
    if g.len() > 0 && topo::slot(cpus, g[0], 0) < cpus.len() {
        let x = cpus[topo::slot(cpus, g[0], 0)];
        let p = topo::left(text::dec(x.package as nat), 7);
        let k = topo::left(text::dec(x.core as nat), 5);
        let l = topo::left(topo::label(cpus, x.class), 6);
        let v = topo::left(topo::commas(g), 22);
        let m = topo::l2_text(x, g.len());
        lemma_flat_dec(x.package as nat);
        lemma_flat_left(text::dec(x.package as nat), 7);
        lemma_flat_dec(x.core as nat);
        lemma_flat_left(text::dec(x.core as nat), 5);
        lemma_flat_label(cpus, x.class);
        lemma_flat_left(topo::label(cpus, x.class), 6);
        lemma_flat_commas(g);
        lemma_flat_left(topo::commas(g), 22);
        lemma_flat_l2(x, g.len());
        let a = "  "@ + p;
        lemma_flat_add("  "@, p);
        lemma_flat_add(a, " "@);
        lemma_flat_add(a + " "@, k);
        lemma_flat_add(a + " "@ + k, " "@);
        lemma_flat_add(a + " "@ + k + " "@, l);
        lemma_flat_add(a + " "@ + k + " "@ + l, " "@);
        lemma_flat_add(a + " "@ + k + " "@ + l + " "@, v);
        lemma_flat_add(a + " "@ + k + " "@ + l + " "@ + v, " "@);
        lemma_flat_add(a + " "@ + k + " "@ + l + " "@ + v + " "@, m);
        let line = a + " "@ + k + " "@ + l + " "@ + v + " "@ + m;
        assert(line[2] == p[0]);
        assert(p[0] == text::dec(x.package as nat)[0]);
        lemma_free_line(line, c);
        assert(topo::core_line(cpus, g) =~= line + seq!['\n']);
    }
}

proof fn lemma_core_lines_free(cpus: Seq<Cpu>, gs: Seq<Seq<usize>>, c: char)
    requires
        is_mark(c),
    ensures
        free(topo::core_lines(cpus, gs), c),
        closed(topo::core_lines(cpus, gs)),
    decreases gs.len(),
{
    if gs.len() == 0 {
        reveal_strlit("\n  socket  core  class  CPUs                   L2\n");
        let t = "\n  socket  core  class  CPUs                   L2\n"@;
        assert forall|i: int| #[trigger] begins_line(t, i) implies !indents(t, c, i) by {
            if i > 0 {
                assert(t[i - 1] == '\n');
            }
            assert(t[3] == 's');
        }
    } else {
        lemma_core_lines_free(cpus, gs.drop_last(), c);
        lemma_core_line_free(cpus, gs.last(), c);
        lemma_free_add(
            topo::core_lines(cpus, gs.drop_last()),
            topo::core_line(cpus, gs.last()),
            c,
        );
    }
}

proof fn lemma_table_free(cpus: Seq<Cpu>, c: char)
    requires
        is_mark(c),
    ensures
        free(topo::table_text(cpus), c),
        closed(topo::table_text(cpus)),
{
    if cpus.len() > 0 && topo::cores_known(cpus) {
        lemma_core_lines_free(cpus, topo::groups(cpus), c);
    } else {
        let nl = seq!['\n'];
        lemma_nl();
        reveal_strlit("\n  CPUs     ");
        reveal_strlit("  CPUs     ");
        let v = topo::commas(topo::ids(cpus));
        lemma_flat_commas(topo::ids(cpus));
        lemma_flat_add("  CPUs     "@, v);
        let l = "  CPUs     "@ + v;
        assert(l[2] == 'C');
        lemma_free_line(l, c);
        lemma_free_line(Seq::empty(), c);
        lemma_free_add(Seq::<char>::empty() + nl, l + nl, c);
        assert("\n  CPUs     "@ =~= nl + "  CPUs     "@);
        assert(topo::table_text(cpus) =~= (Seq::<char>::empty() + nl) + (l + nl));
    }
}

proof fn lemma_smt_free(cpus: Seq<Cpu>, c: char)
    requires
        is_mark(c),
    ensures
        free(topo::smt_text(cpus), c),
        closed(topo::smt_text(cpus)),
{
    let nl = seq!['\n'];
    lemma_nl();
    if topo::strides(cpus).len() == 0 {
        reveal_strlit("\n  SMT      no sibling reported: one logical processor per core\n");
        let t = "\n  SMT      no sibling reported: one logical processor per core\n"@;
        assert forall|i: int| #[trigger] begins_line(t, i) implies !indents(t, c, i) by {
            if i > 0 {
                assert(t[i - 1] == '\n');
            }
            assert(t[3] == 'S');
        }
    } else {
        let v = topo::strides_text(topo::strides(cpus));
        let tail =
            " on this machine\n           it is n/n+1 on most desktop parts and n/n+28 on a dual\n           Broadwell, so a pin list copied from another machine can\n           silently double-book every core here\n"@;
        reveal_strlit("\n  SMT      siblings are numbered ");
        reveal_strlit("  SMT      siblings are numbered ");
        reveal_strlit(" on this machine");
        reveal_strlit(
            " on this machine\n           it is n/n+1 on most desktop parts and n/n+28 on a dual\n           Broadwell, so a pin list copied from another machine can\n           silently double-book every core here\n",
        );
        let n = 16int;
        let l = "  SMT      siblings are numbered "@ + v + tail.take(n);
        lemma_flat_strides(topo::strides(cpus));
        lemma_flat_add("  SMT      siblings are numbered "@, v);
        assert(tail.take(n) =~= " on this machine"@);
        lemma_flat_add("  SMT      siblings are numbered "@ + v, tail.take(n));
        assert(l[2] == 'S');
        lemma_free_line(l, c);
        let rest = tail.skip(n + 1);
        assert forall|i: int| #[trigger] begins_line(rest, i) implies !indents(rest, c, i) by {
            if i > 0 {
                assert(tail[n + i] == '\n');
            }
            if i + 4 < rest.len() {
                assert(rest[i + 4] == tail[n + 1 + i + 4]);
            }
        }
        lemma_free_line(Seq::empty(), c);
        lemma_free_add(Seq::<char>::empty() + nl, l + nl, c);
        lemma_free_add((Seq::<char>::empty() + nl) + (l + nl), rest, c);
        assert("\n  SMT      siblings are numbered "@ =~= nl + "  SMT      siblings are numbered "@);
        assert(tail =~= tail.take(n) + nl + rest);
        assert(topo::smt_text(cpus) =~= (Seq::<char>::empty() + nl) + (l + nl) + rest);
    }
}

proof fn lemma_class_line_free(cpus: Seq<Cpu>, k: u8, c: char)
    requires
        is_mark(c),
    ensures
        free(topo::class_line(cpus, k), c),
        closed(topo::class_line(cpus, k)),
{
    lemma_nl();
    reveal_strlit("  class ");
    reveal_strlit("  ");
    reveal_strlit(" - ");
    reveal_strlit(" CPUs: ");
    let v = topo::ids_of_class(cpus, k);
    let d = text::dec(k as nat);
    let l = topo::label(cpus, Some(k));
    let n = text::dec(v.len());
    lemma_flat_dec(k as nat);
    lemma_flat_label(cpus, Some(k));
    lemma_flat_dec(v.len());
    lemma_flat_commas(v);
    let a = "  class "@;
    lemma_flat_add(a, d);
    lemma_flat_add(a + d, "  "@);
    lemma_flat_add(a + d + "  "@, l);
    lemma_flat_add(a + d + "  "@ + l, " - "@);
    lemma_flat_add(a + d + "  "@ + l + " - "@, n);
    lemma_flat_add(a + d + "  "@ + l + " - "@ + n, " CPUs: "@);
    lemma_flat_add(a + d + "  "@ + l + " - "@ + n + " CPUs: "@, topo::commas(v));
    let line = a + d + "  "@ + l + " - "@ + n + " CPUs: "@ + topo::commas(v);
    assert(line[2] == 'c');
    lemma_free_line(line, c);
}

proof fn lemma_class_lines_free(cpus: Seq<Cpu>, i: int, c: char)
    requires
        is_mark(c),
    ensures
        free(topo::class_lines(cpus, i), c),
        closed(topo::class_lines(cpus, i)),
    decreases topo::class_list(cpus).len() - i,
{
    let cl = topo::class_list(cpus);
    if 0 <= i < cl.len() {
        lemma_class_lines_free(cpus, i + 1, c);
        lemma_class_line_free(cpus, cl[i] as u8, c);
        lemma_free_add(
            topo::class_lines(cpus, i + 1),
            topo::class_line(cpus, cl[i] as u8),
            c,
        );
    }
}

proof fn lemma_classes_free(cpus: Seq<Cpu>, c: char)
    requires
        is_mark(c),
    ensures
        free(topo::classes_text(cpus), c),
        closed(topo::classes_text(cpus)),
{
    reveal_strlit("");
    if topo::class_list(cpus).len() > 1 {
        reveal_strlit(
            "           efficiency cores run about 28% fewer hashes per clock at the\n           frozen 64 KiB pad, so a rate measured over a mix of both\n           is a machine total and not a per-core figure\n",
        );
        let t =
            "           efficiency cores run about 28% fewer hashes per clock at the\n           frozen 64 KiB pad, so a rate measured over a mix of both\n           is a machine total and not a per-core figure\n"@;
        assert forall|i: int| #[trigger] begins_line(t, i) implies !indents(t, c, i) by {
            if i > 0 {
                assert(t[i - 1] == '\n');
            }
            if i + 4 < t.len() {
                assert(t[i + 4] == ' ');
            }
        }
        lemma_class_lines_free(cpus, 0, c);
        lemma_free_add(topo::class_lines(cpus, 0), t, c);
    }
}

// ---------------------------------------------------------------------------
// The lines that offer pin lists

/// Text without a line that begins as `p` does offers nothing that begins with
/// `p`.
proof fn lemma_offers_none(t: Seq<char>, p: Seq<char>, c: char)
    requires
        free(t, c),
        indents(p, c, 0),
    ensures
        !offers(t, p),
{
    assert forall|i: int| !#[trigger] offers_at(t, p, i) by {
        if offers_at(t, p, i) {
            let u = t.subrange(i, i + p.len());
            assert(u[0] == t[i] && u[1] == t[i + 1] && u[2] == t[i + 2] && u[3] == t[i + 3] && u[4]
                == t[i + 4]);
            assert(begins_line(t, i));
        }
    }
}

/// Where one line begins with `p` and no line before it or behind it begins as
/// `p` does, that line is what is offered.
proof fn lemma_offers_one(x: Seq<char>, p: Seq<char>, l: Seq<char>, z: Seq<char>, c: char)
    requires
        free(x, c),
        closed(x),
        free(z, c),
        closed(z),
        flat(p),
        flat(l),
        indents(p, c, 0),
        c != '\n',
    ensures
        offers(x + (p + l + seq!['\n']) + z, p),
        forall|i: int| #[trigger]
            offers_at(x + (p + l + seq!['\n']) + z, p, i) ==> text::stands(
                x + (p + l + seq!['\n']) + z,
                p + l + seq!['\n'],
                i,
            ),
{
    let y = p + l + seq!['\n'];
    let t = x + y + z;
    let n = x.len() as int;
    assert(t.subrange(n, n + p.len()) =~= p);
    assert(t.subrange(n, n + y.len()) =~= y);
    assert(begins_line(t, n));
    assert(offers_at(t, p, n));
    lemma_flat_add(p, l);
    assert forall|i: int| #[trigger] offers_at(t, p, i) implies text::stands(t, y, i) by {
        let u = t.subrange(i, i + p.len());
        assert(forall|k: int| 0 <= k < p.len() ==> #[trigger] u[k] == t[i + k]);
        assert(u[0] == t[i] && u[1] == t[i + 1] && u[2] == t[i + 2] && u[3] == t[i + 3] && u[4]
            == t[i + 4]);
        if i < n {
            assert(begins_line(x, i));
            if i + 4 >= n {
                assert(t[n - 1] == '\n');
                assert(u[n - 1 - i] == '\n');
            } else {
                assert(t[i + 4] == x[i + 4]);
            }
            assert(false);
        } else if n < i < n + y.len() {
            assert(t[i - 1] == (p + l)[i - 1 - n]);
            assert(false);
        } else if i >= n + y.len() {
            let j = i - n - y.len();
            assert(begins_line(z, j)) by {
                if j > 0 {
                    assert(t[i - 1] == z[j - 1]);
                }
            }
            assert(t[i + 4] == z[j + 4]);
            assert(indents(z, c, j));
            assert(false);
        }
    }
}

/// A pin list's own line begins as no other does.
proof fn lemma_line_of(p: Seq<char>, l: Seq<char>, c: char, d: char)
    requires
        flat(p),
        flat(l),
        indents(p, c, 0),
        d != c,
        d != '\n',
    ensures
        free(p + l + seq!['\n'], d),
        closed(p + l + seq!['\n']),
{
    lemma_flat_add(p, l);
    assert((p + l)[4] == c);
    lemma_free_line(p + l, d);
}

/// The map of a machine above its pin lists.
spec fn above(t: Topology) -> Seq<char> {
    topo::head_text(t.model@, t.source@, t.cpus@) + topo::table_text(t.cpus@) + topo::smt_text(
        t.cpus@,
    ) + topo::classes_text(t.cpus@) + "\n  ready-made pin lists\n"@
}

proof fn lemma_above_free(t: Topology, c: char)
    requires
        t.model@.len() == 0,
        flat(t.source@),
        is_mark(c),
    ensures
        free(above(t), c),
        closed(above(t)),
{
    assert(t.model@ =~= Seq::empty());
    let a = topo::head_text(t.model@, t.source@, t.cpus@);
    let b = topo::table_text(t.cpus@);
    let d = topo::smt_text(t.cpus@);
    let e = topo::classes_text(t.cpus@);
    let f = "\n  ready-made pin lists\n"@;
    lemma_head_free(t.source@, t.cpus@, c);
    lemma_table_free(t.cpus@, c);
    lemma_smt_free(t.cpus@, c);
    lemma_classes_free(t.cpus@, c);
    reveal_strlit("\n  ready-made pin lists\n");
    assert forall|i: int| #[trigger] begins_line(f, i) implies !indents(f, c, i) by {
        if i > 0 {
            assert(f[i - 1] == '\n');
        }
        assert(f[3] == 'r');
    }
    lemma_free_add(a, b, c);
    lemma_free_add(a + b, d, c);
    lemma_free_add(a + b + d, e, c);
    lemma_free_add(a + b + d + e, f, c);
}

proof fn lemma_beginnings()
    ensures
        flat(per_core()),
        indents(per_core(), 'o', 0),
        flat(per_class()),
        indents(per_class(), 'p', 0),
        flat(everything()),
        indents(everything(), 'e', 0),
{
    reveal_strlit("    one thread per core   --cpu-affinity ");
    reveal_strlit("    performance cores     --cpu-affinity ");
    reveal_strlit("    every processor       --threads ");
}

/// What follows the number of processors on the last line.
spec fn count_text(cpus: Seq<Cpu>) -> Seq<char> {
    text::dec(cpus.len()) + "   (the default)"@
}

/// The map as what is above the pin lists, and the three lines, of which the
/// first two need not be there.
proof fn lemma_map_parts(t: Topology)
    requires
        t.notes@.len() == 0,
    ensures
        topo::map_text(t) == above(t) + topo::core_pins_text(t.cpus@) + topo::fast_pins_text(
            t.cpus@,
        ) + (everything() + count_text(t.cpus@) + seq!['\n']),
        flat(count_text(t.cpus@)),
{
    reveal_strlit("   (the default)\n");
    reveal_strlit("   (the default)");
    reveal_strlit("");
    assert("   (the default)\n"@ =~= "   (the default)"@ + seq!['\n']);
    lemma_flat_dec(t.cpus@.len());
    lemma_flat_add(text::dec(t.cpus@.len()), "   (the default)"@);
    assert(topo::map_text(t) =~= above(t) + topo::core_pins_text(t.cpus@) + topo::fast_pins_text(
        t.cpus@,
    ) + (everything() + count_text(t.cpus@) + seq!['\n']));
}

/// The line for cores is free of the other two's beginnings, and there only
/// where cores have siblings.
proof fn lemma_core_pins(cpus: Seq<Cpu>)
    ensures
        free(topo::core_pins_text(cpus), 'p'),
        free(topo::core_pins_text(cpus), 'e'),
        closed(topo::core_pins_text(cpus)),
        flat(topo::list_text(topo::row(topo::groups(cpus), 0), 0)),
        topo::core_pins_text(cpus) == (if topo::has_siblings(cpus) {
            per_core() + topo::list_text(topo::row(topo::groups(cpus), 0), 0) + seq!['\n']
        } else {
            Seq::empty()
        }),
{
    let l = topo::list_text(topo::row(topo::groups(cpus), 0), 0);
    lemma_nl();
    reveal_strlit("");
    lemma_beginnings();
    lemma_flat_list(topo::row(topo::groups(cpus), 0), 0);
    lemma_line_of(per_core(), l, 'o', 'p');
    lemma_line_of(per_core(), l, 'o', 'e');
    assert(""@ =~= Seq::<char>::empty());
}

proof fn lemma_fast_pins(cpus: Seq<Cpu>)
    ensures
        free(topo::fast_pins_text(cpus), 'o'),
        free(topo::fast_pins_text(cpus), 'e'),
        closed(topo::fast_pins_text(cpus)),
        flat(topo::list_text(topo::ids_of_class(cpus, topo::class_list(cpus).last() as u8), 0)),
        topo::fast_pins_text(cpus) == (if topo::class_list(cpus).len() >= 2 {
            per_class() + topo::list_text(
                topo::ids_of_class(cpus, topo::class_list(cpus).last() as u8),
                0,
            ) + seq!['\n']
        } else {
            Seq::empty()
        }),
{
    let v = topo::ids_of_class(cpus, topo::class_list(cpus).last() as u8);
    let l = topo::list_text(v, 0);
    lemma_nl();
    reveal_strlit("");
    lemma_beginnings();
    lemma_flat_list(v, 0);
    lemma_line_of(per_class(), l, 'p', 'o');
    lemma_line_of(per_class(), l, 'p', 'e');
    assert(""@ =~= Seq::<char>::empty());
}

/// The map of a machine without a model and without notes offers one thread for
/// each core exactly where some core has more than one processor, and with the
/// list of the first processor of each core.
pub proof fn law_one_thread_per_core_is_offered_with_siblings(t: Topology)
    requires
        t.model@.len() == 0,
        t.notes@.len() == 0,
        flat(t.source@),
    ensures
        offers(topo::map_text(t), per_core()) <==> topo::has_siblings(t.cpus@),
        forall|i: int| #[trigger]
            offers_at(topo::map_text(t), per_core(), i) ==> text::stands(
                topo::map_text(t),
                per_core() + topo::list_text(topo::row(topo::groups(t.cpus@), 0), 0) + seq!['\n'],
                i,
            ),
{
    let cpus = t.cpus@;
    let l = topo::list_text(topo::row(topo::groups(cpus), 0), 0);
    let f = topo::fast_pins_text(cpus);
    let e = everything() + count_text(cpus) + seq!['\n'];
    lemma_beginnings();
    lemma_map_parts(t);
    lemma_above_free(t, 'o');
    lemma_core_pins(cpus);
    lemma_fast_pins(cpus);
    lemma_line_of(everything(), count_text(cpus), 'e', 'o');
    lemma_free_add(f, e, 'o');
    if topo::has_siblings(cpus) {
        let y = per_core() + l + seq!['\n'];
        lemma_offers_one(above(t), per_core(), l, f + e, 'o');
        assert(topo::map_text(t) =~= above(t) + y + (f + e));
    } else {
        lemma_free_add(above(t), f + e, 'o');
        lemma_offers_none(above(t) + (f + e), per_core(), 'o');
        assert(topo::map_text(t) =~= above(t) + (f + e));
    }
}

/// The map of a machine without a model and without notes offers the performance
/// cores exactly where the machine has more than one class of them, and with the
/// list of those of the highest class.
pub proof fn law_performance_cores_are_offered_with_classes(t: Topology)
    requires
        t.model@.len() == 0,
        t.notes@.len() == 0,
        flat(t.source@),
    ensures
        offers(topo::map_text(t), per_class()) <==> topo::class_list(t.cpus@).len() >= 2,
        forall|i: int| #[trigger]
            offers_at(topo::map_text(t), per_class(), i) ==> text::stands(
                topo::map_text(t),
                per_class() + topo::list_text(
                    topo::ids_of_class(t.cpus@, topo::class_list(t.cpus@).last() as u8),
                    0,
                ) + seq!['\n'],
                i,
            ),
{
    let cpus = t.cpus@;
    let l = topo::list_text(topo::ids_of_class(cpus, topo::class_list(cpus).last() as u8), 0);
    let x = above(t) + topo::core_pins_text(cpus);
    let e = everything() + count_text(cpus) + seq!['\n'];
    lemma_beginnings();
    lemma_map_parts(t);
    lemma_above_free(t, 'p');
    lemma_core_pins(cpus);
    lemma_fast_pins(cpus);
    lemma_line_of(everything(), count_text(cpus), 'e', 'p');
    lemma_free_add(above(t), topo::core_pins_text(cpus), 'p');
    if topo::class_list(cpus).len() >= 2 {
        lemma_offers_one(x, per_class(), l, e, 'p');
    } else {
        lemma_free_add(x, e, 'p');
        lemma_offers_none(x + e, per_class(), 'p');
        assert(topo::map_text(t) =~= x + e);
    }
}

proof fn lemma_count_line(cpus: Seq<Cpu>)
    ensures
        everything() + text::dec(cpus.len()) + "   (the default)\n"@ == everything() + count_text(
            cpus,
        ) + seq!['\n'],
{
    reveal_strlit("   (the default)\n");
    reveal_strlit("   (the default)");
    assert("   (the default)\n"@ =~= "   (the default)"@ + seq!['\n']);
    assert(everything() + text::dec(cpus.len()) + "   (the default)\n"@ =~= everything()
        + count_text(cpus) + seq!['\n']);
}

/// What stands at the beginning of a text stands there with more behind it.
proof fn lemma_stands_add(x: Seq<char>, y: Seq<char>, p: Seq<char>)
    requires
        text::stands(x, p, 0),
    ensures
        text::stands(x + y, p, 0),
{
    assert((x + y).subrange(0, p.len() as int) =~= x.subrange(0, p.len() as int));
}

proof fn lemma_head_begins(model: Seq<char>, source: Seq<char>, cpus: Seq<Cpu>)
    ensures
        text::stands(topo::head_text(model, source, cpus), "plaine-miner topology"@, 0),
{
    let p = "plaine-miner topology"@;
    let a = "plaine-miner topology\n\n"@;
    assert(text::stands(a, p, 0)) by {
        reveal_strlit("plaine-miner topology");
        reveal_strlit("plaine-miner topology\n\n");
        assert(a.subrange(0, p.len() as int) =~= p);
    }
    let m = if model.len() == 0 {
        ""@
    } else {
        "  model    "@ + model + "\n"@
    };
    let t = a + m;
    lemma_stands_add(a, m, p);
    lemma_stands_add(t, "  source   "@, p);
    let t = t + "  source   "@;
    lemma_stands_add(t, source, p);
    let t = t + source;
    lemma_stands_add(t, "\n  machine  "@, p);
    let t = t + "\n  machine  "@;
    lemma_stands_add(t, topo::sockets_text(cpus), p);
    let t = t + topo::sockets_text(cpus);
    lemma_stands_add(t, ", "@, p);
    let t = t + ", "@;
    lemma_stands_add(t, topo::cores_text(cpus), p);
    let t = t + topo::cores_text(cpus);
    lemma_stands_add(t, ", "@, p);
    let t = t + ", "@;
    lemma_stands_add(t, text::dec(cpus.len()), p);
    let t = t + text::dec(cpus.len());
    lemma_stands_add(t, " logical processors\n"@, p);
}

proof fn lemma_map_begins(t: Topology)
    ensures
        text::stands(topo::map_text(t), "plaine-miner topology"@, 0),
{
    let p = "plaine-miner topology"@;
    let x = topo::head_text(t.model@, t.source@, t.cpus@);
    lemma_head_begins(t.model@, t.source@, t.cpus@);
    lemma_stands_add(x, topo::table_text(t.cpus@), p);
    let x = x + topo::table_text(t.cpus@);
    lemma_stands_add(x, topo::smt_text(t.cpus@), p);
    let x = x + topo::smt_text(t.cpus@);
    lemma_stands_add(x, topo::classes_text(t.cpus@), p);
    let x = x + topo::classes_text(t.cpus@);
    lemma_stands_add(x, topo::pins_text(t.cpus@), p);
    let x = x + topo::pins_text(t.cpus@);
    lemma_stands_add(x, topo::notes_text(t.notes@), p);
}

/// The map of a machine without a model and without notes begins with its name,
/// and always offers every processor, with their number.
pub proof fn law_every_processor_is_always_offered(t: Topology)
    requires
        t.model@.len() == 0,
        t.notes@.len() == 0,
        flat(t.source@),
    ensures
        text::stands(topo::map_text(t), "plaine-miner topology"@, 0),
        offers(topo::map_text(t), everything()),
        forall|i: int| #[trigger]
            offers_at(topo::map_text(t), everything(), i) ==> text::stands(
                topo::map_text(t),
                everything() + text::dec(t.cpus@.len()) + "   (the default)\n"@,
                i,
            ),
{
    let cpus = t.cpus@;
    let c = topo::core_pins_text(cpus);
    let f = topo::fast_pins_text(cpus);
    let e = everything() + count_text(cpus) + seq!['\n'];
    let x = above(t) + c + f;
    lemma_beginnings();
    lemma_map_parts(t);
    lemma_above_free(t, 'e');
    lemma_core_pins(cpus);
    lemma_fast_pins(cpus);
    lemma_free_add(above(t), c, 'e');
    lemma_free_add(above(t) + c, f, 'e');
    let none = Seq::<char>::empty();
    lemma_offers_one(x, everything(), count_text(cpus), none, 'e');
    assert(x + e + none =~= topo::map_text(t));
    lemma_count_line(cpus);
    lemma_map_begins(t);
}

} // verus!
