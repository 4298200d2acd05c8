//! The text exposition encoder: serializes a registry snapshot into the
//! standard metrics exposition format, one `# HELP` / `# TYPE gauge` header
//! per metric name followed by one sample line per series.

use vstd::prelude::*;
use crate::registry::{Series, SeriesView, MetricRegistry};

verus! {

/// One rendered label: `name="value"`.
pub open spec fn spec_label(p: (Seq<char>, Seq<char>)) -> Seq<char> {
    p.0 + "=\""@ + p.1 + "\""@
}

/// The rendered label block `{a="x",b="y"}`, empty where there is no label.
pub open spec fn spec_label_block(ls: Seq<(Seq<char>, Seq<char>)>) -> Seq<char> {
    if ls.len() == 0 {
        Seq::empty()
    } else {
        "{"@ + spec_labels_join(ls) + "}"@
    }
}

/// The labels joined with commas.
pub open spec fn spec_labels_join(ls: Seq<(Seq<char>, Seq<char>)>) -> Seq<char>
    decreases ls.len(),
{
    if ls.len() == 0 {
        Seq::empty()
    } else if ls.len() == 1 {
        spec_label(ls[0])
    } else {
        spec_labels_join(ls.drop_last()) + ","@ + spec_label(ls.last())
    }
}

/// One sample line: name, label block, a space, the value, a newline.
pub open spec fn spec_sample(s: SeriesView) -> Seq<char> {
    s.name + spec_label_block(s.labels) + " "@ + s.value + "\n"@
}

/// The header emitted before the first series of each metric name.
pub open spec fn spec_header(s: SeriesView) -> Seq<char> {
    "# HELP "@ + s.name + " "@ + s.help + "\n# TYPE "@ + s.name + " gauge\n"@
}

/// Whether series `i` is the first of its metric name.
pub open spec fn first_of_name(series: Seq<SeriesView>, i: int) -> bool {
    forall|j: int| 0 <= j < i ==> (#[trigger] series[j]).name != series[i].name
}

/// The exposition text for the first `i` series.
pub open spec fn spec_encode_upto(series: Seq<SeriesView>, i: int) -> Seq<char>
    decreases i,
{
    if i <= 0 {
        Seq::empty()
    } else {
        spec_encode_upto(series, i - 1) + (if first_of_name(series, i - 1) {
            spec_header(series[i - 1])
        } else {
            Seq::empty()
        }) + spec_sample(series[i - 1])
    }
}

/// The exposition text for a whole snapshot.
pub open spec fn spec_encode(series: Seq<SeriesView>) -> Seq<char> {
    spec_encode_upto(series, series.len() as int)
}

fn append_label(out: &mut String, p: &(String, String))
    ensures
        final(out)@ == old(out)@ + spec_label((p.0@, p.1@)),
{
    out.append(p.0.as_str());
    out.append("=\"");
    out.append(p.1.as_str());
    out.append("\"");
    proof {
        assert(final(out)@ =~= old(out)@ + spec_label((p.0@, p.1@)));
    }
}

fn append_label_block(out: &mut String, ls: &Vec<(String, String)>)
    ensures
        final(out)@ == old(out)@ + spec_label_block(crate::registry::labels_view(ls@)),
{
    let n = ls.len();
    let ghost lsv = crate::registry::labels_view(ls@);
    if n == 0 {
        proof {
            assert(old(out)@ + spec_label_block(lsv) =~= old(out)@);
        }
        return ;
    }
    out.append("{");
    let mut i: usize = 0;
    while i < n
        invariant
            i <= n,
            n == ls.len(),
            n > 0,
            lsv == crate::registry::labels_view(ls@),
            out@ == old(out)@ + "{"@ + spec_labels_join(lsv.take(i as int)),
        decreases n - i,
    {
        proof {
            assert(lsv[i as int] == (ls@[i as int].0@, ls@[i as int].1@));
            assert(lsv.take(i as int + 1).drop_last() =~= lsv.take(i as int));
            assert(lsv.take(i as int + 1).last() == lsv[i as int]);
        }
        if i > 0 {
            out.append(",");
        }
        append_label(out, &ls[i]);
        proof {
            if i == 0 {
                assert(lsv.take(1) =~= seq![lsv[0]]);
                assert(spec_labels_join(lsv.take(1)) == spec_label(lsv[0]));
                assert(out@ =~= old(out)@ + "{"@ + spec_labels_join(lsv.take(i as int + 1)));
            } else {
                assert(out@ =~= old(out)@ + "{"@ + spec_labels_join(lsv.take(i as int + 1)));
            }
        }
        i = i + 1;
    }
    out.append("}");
    proof {
        assert(lsv.take(n as int) =~= lsv);
        assert(out@ =~= old(out)@ + spec_label_block(lsv));
    }
}

fn append_sample(out: &mut String, s: &Series)
    ensures
        final(out)@ == old(out)@ + spec_sample(s@),
{
    out.append(s.name.as_str());
    append_label_block(out, &s.labels);
    out.append(" ");
    out.append(s.value.as_str());
    out.append("\n");
    proof {
        assert(final(out)@ =~= old(out)@ + spec_sample(s@));
    }
}

fn append_header(out: &mut String, s: &Series)
    ensures
        final(out)@ == old(out)@ + spec_header(s@),
{
    out.append("# HELP ");
    out.append(s.name.as_str());
    out.append(" ");
    out.append(s.help.as_str());
    out.append("\n# TYPE ");
    out.append(s.name.as_str());
    out.append(" gauge\n");
    proof {
        assert(final(out)@ =~= old(out)@ + spec_header(s@));
    }
}

/// Encodes the registry's current series into exposition text.
pub fn encode_exposition(reg: &MetricRegistry) -> (r: String)
    ensures
        r@ == spec_encode(reg@),
{
    let n = reg.series.len();
    let mut out = String::new();
    let mut i: usize = 0;
    while i < n
        invariant
            i <= n,
            n == reg.series.len(),
            out@ == spec_encode_upto(reg@, i as int),
        decreases n - i,
    {
        proof {
            assert(reg@[i as int] == reg.series@[i as int]@);
        }
        let mut first = true;
        let mut j: usize = 0;
        while j < i
            invariant
                j <= i,
                i < n,
                n == reg.series.len(),
                first == first_of_name(reg@.take(j as int).push(reg@[i as int]), j as int),
            decreases i - j,
        {
            proof {
                assert(reg@[j as int] == reg.series@[j as int]@);
            }
            let same = reg.series[j].name == reg.series[i].name;
            proof {
                assert(reg@[j as int].name == reg.series@[j as int].name@);
                assert(reg@[i as int].name == reg.series@[i as int].name@);
                let pre = reg@.take(j as int).push(reg@[i as int]);
                let pre2 = reg@.take(j as int + 1).push(reg@[i as int]);
                assert(pre[j as int] == reg@[i as int]);
                assert(pre2[j as int] == reg@[j as int]);
                assert(pre2[j as int + 1] == reg@[i as int]);
                assert forall|k: int| 0 <= k < j implies #[trigger] pre2[k] == pre[k] by {
                    assert(pre2[k] == reg@[k]);
                    assert(pre[k] == reg@[k]);
                }
                if same {
                    assert(pre2[j as int].name == pre2[j as int + 1].name);
                    assert(!first_of_name(pre2, j as int + 1));
                } else if !first {
                    let k0 = choose|k: int|
                        0 <= k < j && (#[trigger] pre[k]).name == pre[j as int].name;
                    assert(pre2[k0] == pre[k0]);
                    assert(pre2[k0].name == pre2[j as int + 1].name);
                    assert(!first_of_name(pre2, j as int + 1));
                } else {
                    assert forall|k: int| 0 <= k < j + 1 implies (#[trigger] pre2[k]).name
                        != pre2[j as int + 1].name by {
                        if k < j {
                            assert(pre[k] == pre2[k]);
                            assert(pre[k].name != reg@[i as int].name);
                        }
                    }
                    assert(first_of_name(pre2, j as int + 1));
                }
            }
            first = first && !same;
            j = j + 1;
        }
        proof {
            let pre = reg@.take(i as int).push(reg@[i as int]);
            assert forall|k: int| 0 <= k < i implies #[trigger] pre[k] == reg@[k] by {
                assert(pre[k] == reg@.take(i as int)[k]);
            }
            assert(pre[i as int] == reg@[i as int]);
            if first_of_name(pre, i as int) {
                assert forall|k: int| 0 <= k < i implies (#[trigger] reg@[k]).name != reg@[i as int].name by {
                    assert(pre[k].name != pre[i as int].name);
                }
                assert(first_of_name(reg@, i as int));
            } else {
                if first_of_name(reg@, i as int) {
                    assert forall|k: int| 0 <= k < i implies (#[trigger] pre[k]).name != pre[i as int].name by {
                        assert(reg@[k].name != reg@[i as int].name);
                    }
                    assert(first_of_name(pre, i as int));
                }
                assert(!first_of_name(reg@, i as int));
            }
            assert(first == first_of_name(reg@, i as int));
        }
        if first {
            append_header(&mut out, &reg.series[i]);
        }
        append_sample(&mut out, &reg.series[i]);
        proof {
            assert(out@ =~= spec_encode_upto(reg@, i as int + 1));
        }
        i = i + 1;
    }
    out
}

/// The content type the exposition format is served under.
pub fn exposition_content_type() -> (r: String)
    ensures
        r@ == "text/plain; version=0.0.4"@,
{
    String::from_str("text/plain; version=0.0.4")
}

} // verus!
