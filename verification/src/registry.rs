//! A last-value gauge registry. The set of series is fixed once registration
//! is done; a scrape only overwrites values. Each series is keyed by its
//! metric name together with its label pairs, and holds one decimal value as
//! text.

use vstd::prelude::*;
use crate::text::is_number;

verus! {

/// One gauge time series: a metric name, its help text, its label pairs in
/// a fixed order, and the current value as decimal text.
pub struct Series {
    pub name: String,
    pub help: String,
    pub labels: Vec<(String, String)>,
    pub value: String,
}

/// The view of a series.
pub struct SeriesView {
    pub name: Seq<char>,
    pub help: Seq<char>,
    pub labels: Seq<(Seq<char>, Seq<char>)>,
    pub value: Seq<char>,
}

pub open spec fn labels_view(v: Seq<(String, String)>) -> Seq<(Seq<char>, Seq<char>)> {
    Seq::new(v.len(), |i: int| (v[i].0@, v[i].1@))
}

impl View for Series {
    type V = SeriesView;

    open spec fn view(&self) -> SeriesView {
        SeriesView {
            name: self.name@,
            help: self.help@,
            labels: labels_view(self.labels@),
            value: self.value@,
        }
    }
}

pub open spec fn series_seq_view(v: Seq<Series>) -> Seq<SeriesView> {
    Seq::new(v.len(), |i: int| v[i]@)
}

/// A metric name the exposition format can carry: nonempty, and free of
/// whitespace, braces, quotes and backslashes.
pub open spec fn name_ok(s: Seq<char>) -> bool {
    &&& s.len() > 0
    &&& forall|i: int|
        0 <= i < s.len() ==> !crate::text::is_ws(#[trigger] s[i]) && s[i] != '{' && s[i] != '}'
            && s[i] != '"' && s[i] != '\\'
}

/// Text the encoder can put between quotes or on a help line without
/// escaping: no quote, backslash or newline.
pub open spec fn text_ok(s: Seq<char>) -> bool {
    forall|i: int| 0 <= i < s.len() ==> s[i] != '"' && s[i] != '\\' && s[i] != '\n'
}

/// A usable label pair: a label name and a printable value.
pub open spec fn label_pair_ok(p: (Seq<char>, Seq<char>)) -> bool {
    name_ok(p.0) && text_ok(p.1)
}

pub open spec fn labels_ok(ls: Seq<(Seq<char>, Seq<char>)>) -> bool {
    forall|i: int| 0 <= i < ls.len() ==> label_pair_ok(#[trigger] ls[i])
}

/// A well-formed series: printable name, help and labels, and a decimal
/// value.
pub open spec fn series_wf(s: SeriesView) -> bool {
    &&& name_ok(s.name)
    &&& text_ok(s.help)
    &&& labels_ok(s.labels)
    &&& is_number(s.value)
}

/// Two series are the same time series when name and labels agree.
pub open spec fn same_key(a: SeriesView, b: SeriesView) -> bool {
    a.name == b.name && a.labels == b.labels
}

/// The index of the series keyed by (name, labels), or -1.
pub open spec fn index_of_key(
    series: Seq<SeriesView>,
    name: Seq<char>,
    labels: Seq<(Seq<char>, Seq<char>)>,
) -> int
    decreases series.len(),
{
    if series.len() == 0 {
        -1
    } else if series[0].name == name && series[0].labels == labels {
        0
    } else {
        let rest = index_of_key(series.drop_first(), name, labels);
        if rest == -1 {
            -1
        } else {
            rest + 1
        }
    }
}

pub proof fn lemma_index_of_key(
    series: Seq<SeriesView>,
    name: Seq<char>,
    labels: Seq<(Seq<char>, Seq<char>)>,
)
    ensures
        index_of_key(series, name, labels) == -1 || (0 <= index_of_key(series, name, labels)
            < series.len() && series[index_of_key(series, name, labels)].name == name
            && series[index_of_key(series, name, labels)].labels == labels),
    decreases series.len(),
{
    if series.len() > 0 && !(series[0].name == name && series[0].labels == labels) {
        lemma_index_of_key(series.drop_first(), name, labels);
    }
}

/// A well-formed registry: every series well-formed, and no two series share
/// a key.
pub open spec fn registry_wf(series: Seq<SeriesView>) -> bool {
    &&& forall|i: int| 0 <= i < series.len() ==> series_wf(#[trigger] series[i])
    &&& forall|i: int, j: int|
        0 <= i < j < series.len() ==> !same_key(#[trigger] series[i], #[trigger] series[j])
}

/// Why an operation on the registry was refused.
#[derive(Debug, PartialEq, Eq)]
pub enum RegistryError {
    /// Registration would duplicate an existing (name, labels) key, or the
    /// series is not well-formed.
    BadRegistration,
    /// A `set` named a series that was never registered.
    NotRegistered,
    /// A `set` carried a value that is not decimal-number text.
    BadValue,
}

/// The fixed collection of gauges. Constructed once at startup; scrapes only
/// overwrite values.
pub struct MetricRegistry {
    pub series: Vec<Series>,
}

impl View for MetricRegistry {
    type V = Seq<SeriesView>;

    open spec fn view(&self) -> Seq<SeriesView> {
        series_seq_view(self.series@)
    }
}

fn labels_eq(a: &Vec<(String, String)>, b: &Vec<(String, String)>) -> (r: bool)
    ensures
        r == (labels_view(a@) == labels_view(b@)),
{
    let n = a.len();
    if n != b.len() {
        proof {
            assert(labels_view(a@).len() != labels_view(b@).len());
        }
        return false;
    }
    let mut i: usize = 0;
    while i < n
        invariant
            i <= n,
            n == a.len(),
            n == b.len(),
            forall|k: int|
                0 <= k < i ==> #[trigger] labels_view(a@)[k] == labels_view(b@)[k],
        decreases n - i,
    {
        let keys_eq = a[i].0 == b[i].0;
        let vals_eq = a[i].1 == b[i].1;
        proof {
            assert(labels_view(a@)[i as int] == (a@[i as int].0@, a@[i as int].1@));
            assert(labels_view(b@)[i as int] == (b@[i as int].0@, b@[i as int].1@));
        }
        if !keys_eq || !vals_eq {
            return false;
        }
        proof {
            assert(a@[i as int].0@ == b@[i as int].0@);
            assert(a@[i as int].1@ == b@[i as int].1@);
            assert(labels_view(a@)[i as int] == labels_view(b@)[i as int]);
        }
        i = i + 1;
    }
    proof {
        assert(labels_view(a@) =~= labels_view(b@));
    }
    true
}

fn check_name_ok(s: &str) -> (r: bool)
    ensures
        r == name_ok(s@),
{
    let n = s.unicode_len();
    if n == 0 {
        return false;
    }
    let mut i: usize = 0;
    while i < n
        invariant
            i <= n,
            n == s@.len(),
            forall|k: int|
                0 <= k < i ==> !crate::text::is_ws(#[trigger] s@[k]) && s@[k] != '{' && s@[k]
                    != '}' && s@[k] != '"' && s@[k] != '\\',
        decreases n - i,
    {
        let c = s.get_char(i);
        if c == ' ' || c == '\t' || c == '\r' || c == '\n' || c == '{' || c == '}' || c == '"'
            || c == '\\' {
            return false;
        }
        i = i + 1;
    }
    true
}

fn check_text_ok(s: &str) -> (r: bool)
    ensures
        r == text_ok(s@),
{
    let n = s.unicode_len();
    let mut i: usize = 0;
    while i < n
        invariant
            i <= n,
            n == s@.len(),
            forall|k: int| 0 <= k < i ==> #[trigger] s@[k] != '"' && s@[k] != '\\' && s@[k] != '\n',
        decreases n - i,
    {
        let c = s.get_char(i);
        if c == '"' || c == '\\' || c == '\n' {
            return false;
        }
        i = i + 1;
    }
    true
}

fn check_series_wf(s: &Series) -> (r: bool)
    ensures
        r == series_wf(s@),
{
    proof {
        assert(s@.name == s.name@);
        assert(s@.help == s.help@);
        assert(s@.labels == labels_view(s.labels@));
        assert(s@.value == s.value@);
    }
    if !check_name_ok(s.name.as_str()) {
        return false;
    }
    if !check_text_ok(s.help.as_str()) {
        return false;
    }
    let n = s.labels.len();
    let mut i: usize = 0;
    while i < n
        invariant
            i <= n,
            n == s.labels.len(),
            forall|k: int| 0 <= k < i ==> label_pair_ok(#[trigger] labels_view(s.labels@)[k]),
        decreases n - i,
    {
        let lk = check_name_ok(s.labels[i].0.as_str());
        let lv = check_text_ok(s.labels[i].1.as_str());
        proof {
            assert(labels_view(s.labels@)[i as int] == (
                s.labels@[i as int].0@,
                s.labels@[i as int].1@,
            ));
        }
        if !lk || !lv {
            proof {
                assert(!label_pair_ok(labels_view(s.labels@)[i as int]));
                assert(!labels_ok(s@.labels));
            }
            return false;
        }
        proof {
            assert(label_pair_ok(labels_view(s.labels@)[i as int]));
        }
        i = i + 1;
    }
    proof {
        assert(labels_ok(s@.labels));
    }
    crate::text::check_number(s.value.as_str())
}

impl MetricRegistry {
    /// An empty registry, ready for registration.
    pub fn new() -> (r: MetricRegistry)
        ensures
            r@ =~= Seq::<SeriesView>::empty(),
    {
        MetricRegistry { series: Vec::new() }
    }

    /// The index of the series keyed by (name, labels), if registered.
    fn find(&self, name: &str, labels: &Vec<(String, String)>) -> (r: Option<usize>)
        ensures
            match r {
                Some(i) => index_of_key(self@, name@, labels_view(labels@)) == i as int && i
                    < self.series.len(),
                None => index_of_key(self@, name@, labels_view(labels@)) == -1,
            },
    {
        let n = self.series.len();
        proof {
            assert(self@.skip(0) =~= self@);
        }
        let key: String = name.to_owned();
        let mut i: usize = 0;
        while i < n
            invariant
                i <= n,
                n == self.series.len(),
                key@ == name@,
                index_of_key(self@, name@, labels_view(labels@)) == (if index_of_key(
                    self@.skip(i as int),
                    name@,
                    labels_view(labels@),
                ) == -1 {
                    -1int
                } else {
                    index_of_key(self@.skip(i as int), name@, labels_view(labels@)) + i
                }),
            decreases n - i,
        {
            let ghost suffix = self@.skip(i as int);
            proof {
                assert(suffix[0] == self@[i as int]);
                assert(self@[i as int] == self.series@[i as int]@);
                assert(suffix.drop_first() =~= self@.skip(i as int + 1));
            }
            let names_eq = self.series[i].name == key;
            let entry_eq = names_eq && labels_eq(&self.series[i].labels, labels);
            proof {
                lemma_index_of_key(self@.skip(i as int + 1), name@, labels_view(labels@));
                assert(suffix[0].name == self.series@[i as int].name@);
                assert(suffix[0].labels == labels_view(self.series@[i as int].labels@));
                assert(index_of_key(suffix, name@, labels_view(labels@)) == (if suffix[0].name
                    == name@ && suffix[0].labels == labels_view(labels@) {
                    0int
                } else {
                    (if index_of_key(suffix.drop_first(), name@, labels_view(labels@)) == -1 {
                        -1int
                    } else {
                        index_of_key(suffix.drop_first(), name@, labels_view(labels@)) + 1
                    })
                }));
            }
            if entry_eq {
                return Some(i);
            }
            i = i + 1;
        }
        proof {
            assert(self@.skip(i as int) =~= Seq::<SeriesView>::empty());
        }
        None
    }

    /// Registers one series. Refused when the series is not well-formed or
    /// its key is already taken; the registry is unchanged on refusal.
    pub fn register(&mut self, s: Series) -> (r: Result<(), RegistryError>)
        ensures
            match r {
                Ok(()) => series_wf(s@) && index_of_key(old(self)@, s@.name, s@.labels) == -1
                    && final(self)@ =~= old(self)@.push(s@),
                Err(e) => e == RegistryError::BadRegistration && (!series_wf(s@) || index_of_key(
                    old(self)@,
                    s@.name,
                    s@.labels,
                ) != -1) && final(self)@ == old(self)@,
            },
            registry_wf(old(self)@) && r is Ok ==> registry_wf(final(self)@),
    {
        if !check_series_wf(&s) {
            return Err(RegistryError::BadRegistration);
        }
        match self.find(s.name.as_str(), &s.labels) {
            Some(_) => Err(RegistryError::BadRegistration),
            None => {
                proof {
                    lemma_index_not_found(self@, s@.name, s@.labels);
                }
                let ghost olds = self@;
                self.series.push(s);
                proof {
                    assert(self@ =~= olds.push(self.series@.last()@));
                }
                Ok(())
            },
        }
    }

    /// Overwrites the value of the series keyed by (name, labels). The
    /// registered set never changes: on any refusal the registry is left
    /// exactly as it was, and on success only that one value is replaced.
    pub fn set(&mut self, name: &str, labels: &Vec<(String, String)>, value: &str) -> (r: Result<
        (),
        RegistryError,
    >)
        ensures
            match r {
                Ok(()) => index_of_key(old(self)@, name@, labels_view(labels@)) >= 0 && is_number(
                    value@,
                ) && final(self)@ =~= spec_set(old(self)@, name@, labels_view(labels@), value@),
                Err(e) => final(self)@ == old(self)@ && (e == RegistryError::NotRegistered
                    || e == RegistryError::BadValue) && (e == RegistryError::NotRegistered
                    <==> index_of_key(old(self)@, name@, labels_view(labels@)) == -1) && (e
                    == RegistryError::BadValue <==> index_of_key(
                    old(self)@,
                    name@,
                    labels_view(labels@),
                ) >= 0 && !is_number(value@)),
            },
            registry_wf(old(self)@) ==> registry_wf(final(self)@),
    {
        let idx = match self.find(name, labels) {
            None => {
                return Err(RegistryError::NotRegistered);
            },
            Some(i) => i,
        };
        if !crate::text::check_number(value) {
            return Err(RegistryError::BadValue);
        }
        proof {
            lemma_index_of_key(old(self)@, name@, labels_view(labels@));
        }
        let ghost olds = self@;
        let entry = &self.series[idx];
        let replaced = Series {
            name: entry.name.clone(),
            help: entry.help.clone(),
            labels: clone_labels(&entry.labels),
            value: value.to_owned(),
        };
        self.series[idx] = replaced;
        proof {
            let i = idx as int;
            assert forall|k: int| 0 <= k < olds.len() implies #[trigger] self@[k] == (if k == i {
                SeriesView { value: value@, ..olds[i] }
            } else {
                olds[k]
            }) by {
                if k == i {
                    assert(labels_view(self.series@[i].labels@) =~= olds[i].labels);
                } else {
                    assert(self.series@[k] == old(self).series@[k]);
                }
            }
            assert(self@ =~= spec_set(olds, name@, labels_view(labels@), value@));
            if registry_wf(olds) {
                assert forall|k: int| 0 <= k < self@.len() implies series_wf(
                    #[trigger] self@[k],
                ) by {
                    assert(series_wf(olds[k]));
                }
            }
        }
        Ok(())
    }

    /// A copy of every registered series, for the encoder.
    pub fn snapshot(&self) -> (r: Vec<Series>)
        ensures
            series_seq_view(r@) =~= self@,
    {
        let n = self.series.len();
        let mut out: Vec<Series> = Vec::new();
        let mut i: usize = 0;
        while i < n
            invariant
                i <= n,
                n == self.series.len(),
                out.len() == i,
                forall|k: int| 0 <= k < i ==> #[trigger] out@[k]@ == self.series@[k]@,
            decreases n - i,
        {
            let entry = &self.series[i];
            let copy = Series {
                name: entry.name.clone(),
                help: entry.help.clone(),
                labels: clone_labels(&entry.labels),
                value: entry.value.clone(),
            };
            proof {
                assert(labels_view(copy.labels@) =~= labels_view(entry.labels@));
            }
            out.push(copy);
            i = i + 1;
        }
        proof {
            assert(series_seq_view(out@) =~= self@);
        }
        out
    }
}

/// The registry after overwriting the keyed series' value; unchanged where
/// the key is absent.
pub open spec fn spec_set(
    series: Seq<SeriesView>,
    name: Seq<char>,
    labels: Seq<(Seq<char>, Seq<char>)>,
    value: Seq<char>,
) -> Seq<SeriesView> {
    let i = index_of_key(series, name, labels);
    if i == -1 {
        series
    } else {
        series.update(i, SeriesView { value: value, ..series[i] })
    }
}

proof fn lemma_index_not_found(
    series: Seq<SeriesView>,
    name: Seq<char>,
    labels: Seq<(Seq<char>, Seq<char>)>,
)
    requires
        index_of_key(series, name, labels) == -1,
    ensures
        forall|i: int|
            0 <= i < series.len() ==> !(#[trigger] series[i].name == name && series[i].labels
                == labels),
    decreases series.len(),
{
    if series.len() > 0 {
        if !(series[0].name == name && series[0].labels == labels) {
            lemma_index_of_key(series.drop_first(), name, labels);
            lemma_index_not_found(series.drop_first(), name, labels);
            assert forall|i: int|
                0 <= i < series.len() implies !(#[trigger] series[i].name == name
                && series[i].labels == labels) by {
                if i > 0 {
                    assert(series.drop_first()[i - 1] == series[i]);
                }
            }
        }
    }
}

fn clone_labels(a: &Vec<(String, String)>) -> (r: Vec<(String, String)>)
    ensures
        labels_view(r@) =~= labels_view(a@),
{
    let n = a.len();
    let mut out: Vec<(String, String)> = Vec::new();
    let mut i: usize = 0;
    while i < n
        invariant
            i <= n,
            n == a.len(),
            out@ == a@.take(i as int),
        decreases n - i,
    {
        let pair = (a[i].0.clone(), a[i].1.clone());
        proof {
            assert(pair.0 == a@[i as int].0 && pair.1 == a@[i as int].1);
            assert(pair == a@[i as int]);
            assert(a@.take(i as int + 1) =~= a@.take(i as int).push(a@[i as int]));
        }
        out.push(pair);
        i = i + 1;
    }
    proof {
        assert(a@.take(n as int) =~= a@);
    }
    out
}

} // verus!
