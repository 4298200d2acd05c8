//! The decoded "current observation" record and its schema-driven decoder.
//! The schema is fixed: a known set of named leaf fields, each either free
//! text or a decimal number. A missing required field, or non-numeric text in
//! a numeric field, fails the whole decode; unknown leaves are ignored.

use vstd::prelude::*;
use crate::text::is_number;
use crate::xml;

verus! {

/// One decoded snapshot of the upstream document. Numeric quantities keep
/// their exact decimal text, so no value is disturbed on its way through.
#[derive(Debug)]
pub struct CurrentObservation {
    pub station_long_name: String,
    pub station_name: String,
    pub station_id: String,
    pub observation_time: String,
    pub timezone: String,
    pub temperature: String,
    pub temperature_low: String,
    pub temperature_high: String,
    pub temperature_units: String,
    pub humidity: String,
    pub humidity_units: String,
    pub insolation: String,
    pub insolation_units: String,
    pub insolation_predicted: String,
    pub insolation_predicted_units: String,
}

/// The mathematical view of an observation: each field as a character
/// sequence.
pub struct ObservationView {
    pub station_long_name: Seq<char>,
    pub station_name: Seq<char>,
    pub station_id: Seq<char>,
    pub observation_time: Seq<char>,
    pub timezone: Seq<char>,
    pub temperature: Seq<char>,
    pub temperature_low: Seq<char>,
    pub temperature_high: Seq<char>,
    pub temperature_units: Seq<char>,
    pub humidity: Seq<char>,
    pub humidity_units: Seq<char>,
    pub insolation: Seq<char>,
    pub insolation_units: Seq<char>,
    pub insolation_predicted: Seq<char>,
    pub insolation_predicted_units: Seq<char>,
}

impl View for CurrentObservation {
    type V = ObservationView;

    open spec fn view(&self) -> ObservationView {
        ObservationView {
            station_long_name: self.station_long_name@,
            station_name: self.station_name@,
            station_id: self.station_id@,
            observation_time: self.observation_time@,
            timezone: self.timezone@,
            temperature: self.temperature@,
            temperature_low: self.temperature_low@,
            temperature_high: self.temperature_high@,
            temperature_units: self.temperature_units@,
            humidity: self.humidity@,
            humidity_units: self.humidity_units@,
            insolation: self.insolation@,
            insolation_units: self.insolation_units@,
            insolation_predicted: self.insolation_predicted@,
            insolation_predicted_units: self.insolation_predicted_units@,
        }
    }
}

/// Every numeric quantity of the record holds well-formed decimal text.
pub open spec fn obs_wf(v: ObservationView) -> bool {
    &&& is_number(v.temperature)
    &&& is_number(v.temperature_low)
    &&& is_number(v.temperature_high)
    &&& is_number(v.humidity)
    &&& is_number(v.insolation)
    &&& is_number(v.insolation_predicted)
}

/// Why a decode failed: the document was not well-formed, a required field
/// was absent, or a numeric field held non-numeric text.
#[derive(Debug, PartialEq, Eq)]
pub enum DecodeError {
    Malformed,
    MissingField(String),
    NotNumeric(String),
}

/// The view of a decode failure.
pub enum DecodeFailure {
    Malformed,
    MissingField(Seq<char>),
    NotNumeric(Seq<char>),
}

impl View for DecodeError {
    type V = DecodeFailure;

    open spec fn view(&self) -> DecodeFailure {
        match self {
            DecodeError::Malformed => DecodeFailure::Malformed,
            DecodeError::MissingField(n) => DecodeFailure::MissingField(n@),
            DecodeError::NotNumeric(n) => DecodeFailure::NotNumeric(n@),
        }
    }
}

/// The text of the leaf named `name`, empty where the leaf is absent.
pub open spec fn field_of(leaves: Seq<(Seq<char>, Seq<char>)>, name: Seq<char>) -> Seq<char> {
    match xml::spec_lookup(leaves, name) {
        Some(t) => t,
        None => Seq::empty(),
    }
}

pub open spec fn has_field(leaves: Seq<(Seq<char>, Seq<char>)>, name: Seq<char>) -> bool {
    xml::spec_lookup(leaves, name) is Some
}

/// The record assembled from the scanned leaves.
pub open spec fn obs_of_leaves(leaves: Seq<(Seq<char>, Seq<char>)>) -> ObservationView {
    ObservationView {
        station_long_name: field_of(leaves, "station_long_name"@),
        station_name: field_of(leaves, "station_name"@),
        station_id: field_of(leaves, "station_id"@),
        observation_time: field_of(leaves, "observation_time"@),
        timezone: field_of(leaves, "timezone"@),
        temperature: field_of(leaves, "temperature"@),
        temperature_low: field_of(leaves, "temperature_low"@),
        temperature_high: field_of(leaves, "temperature_high"@),
        temperature_units: field_of(leaves, "temperature_units"@),
        humidity: field_of(leaves, "humidity"@),
        humidity_units: field_of(leaves, "humidity_units"@),
        insolation: field_of(leaves, "insolation"@),
        insolation_units: field_of(leaves, "insolation_units"@),
        insolation_predicted: field_of(leaves, "insolation_predicted"@),
        insolation_predicted_units: field_of(leaves, "insolation_predicted_units"@),
    }
}

/// The first schema violation among the leaves, in field order, if any:
/// a missing required field, or non-numeric text in a numeric field.
pub open spec fn first_problem(leaves: Seq<(Seq<char>, Seq<char>)>) -> Option<DecodeFailure> {
    if !has_field(leaves, "station_long_name"@) {
        Some(DecodeFailure::MissingField("station_long_name"@))
    } else if !has_field(leaves, "station_name"@) {
        Some(DecodeFailure::MissingField("station_name"@))
    } else if !has_field(leaves, "station_id"@) {
        Some(DecodeFailure::MissingField("station_id"@))
    } else if !has_field(leaves, "observation_time"@) {
        Some(DecodeFailure::MissingField("observation_time"@))
    } else if !has_field(leaves, "timezone"@) {
        Some(DecodeFailure::MissingField("timezone"@))
    } else if !has_field(leaves, "temperature"@) {
        Some(DecodeFailure::MissingField("temperature"@))
    } else if !is_number(field_of(leaves, "temperature"@)) {
        Some(DecodeFailure::NotNumeric("temperature"@))
    } else if !has_field(leaves, "temperature_low"@) {
        Some(DecodeFailure::MissingField("temperature_low"@))
    } else if !is_number(field_of(leaves, "temperature_low"@)) {
        Some(DecodeFailure::NotNumeric("temperature_low"@))
    } else if !has_field(leaves, "temperature_high"@) {
        Some(DecodeFailure::MissingField("temperature_high"@))
    } else if !is_number(field_of(leaves, "temperature_high"@)) {
        Some(DecodeFailure::NotNumeric("temperature_high"@))
    } else if !has_field(leaves, "temperature_units"@) {
        Some(DecodeFailure::MissingField("temperature_units"@))
    } else if !has_field(leaves, "humidity"@) {
        Some(DecodeFailure::MissingField("humidity"@))
    } else if !is_number(field_of(leaves, "humidity"@)) {
        Some(DecodeFailure::NotNumeric("humidity"@))
    } else if !has_field(leaves, "humidity_units"@) {
        Some(DecodeFailure::MissingField("humidity_units"@))
    } else if !has_field(leaves, "insolation"@) {
        Some(DecodeFailure::MissingField("insolation"@))
    } else if !is_number(field_of(leaves, "insolation"@)) {
        Some(DecodeFailure::NotNumeric("insolation"@))
    } else if !has_field(leaves, "insolation_units"@) {
        Some(DecodeFailure::MissingField("insolation_units"@))
    } else if !has_field(leaves, "insolation_predicted"@) {
        Some(DecodeFailure::MissingField("insolation_predicted"@))
    } else if !is_number(field_of(leaves, "insolation_predicted"@)) {
        Some(DecodeFailure::NotNumeric("insolation_predicted"@))
    } else if !has_field(leaves, "insolation_predicted_units"@) {
        Some(DecodeFailure::MissingField("insolation_predicted_units"@))
    } else {
        None
    }
}

/// What decoding a document yields: the record, or the reason it fails.
pub open spec fn spec_decode(s: Seq<char>) -> Result<ObservationView, DecodeFailure> {
    match xml::spec_scan_document(s) {
        None => Err(DecodeFailure::Malformed),
        Some(leaves) => match first_problem(leaves) {
            Some(f) => Err(f),
            None => Ok(obs_of_leaves(leaves)),
        },
    }
}

/// Decodes an upstream document into a `CurrentObservation`.
///
/// Succeeds exactly on documents that are well-formed in the accepted XML
/// subset and carry every required field with numeric text where the schema
/// asks for a number; the record then holds each field's text exactly as it
/// stands in the document.
pub fn decode_observation(doc: &str) -> (r: Result<CurrentObservation, DecodeError>)
    ensures
        match r {
            Ok(o) => spec_decode(doc@) == Ok::<ObservationView, DecodeFailure>(o@) && obs_wf(o@),
            Err(e) => spec_decode(doc@) == Err::<ObservationView, DecodeFailure>(e@),
        },
{
    let leaves = match xml::scan_document(doc) {
        None => {
            return Err(DecodeError::Malformed);
        },
        Some(l) => l,
    };
    let station_long_name = match xml::lookup(&leaves, "station_long_name") {
        None => {
            return Err(DecodeError::MissingField("station_long_name".to_owned()));
        },
        Some(t) => t,
    };
    let station_name = match xml::lookup(&leaves, "station_name") {
        None => {
            return Err(DecodeError::MissingField("station_name".to_owned()));
        },
        Some(t) => t,
    };
    let station_id = match xml::lookup(&leaves, "station_id") {
        None => {
            return Err(DecodeError::MissingField("station_id".to_owned()));
        },
        Some(t) => t,
    };
    let observation_time = match xml::lookup(&leaves, "observation_time") {
        None => {
            return Err(DecodeError::MissingField("observation_time".to_owned()));
        },
        Some(t) => t,
    };
    let timezone = match xml::lookup(&leaves, "timezone") {
        None => {
            return Err(DecodeError::MissingField("timezone".to_owned()));
        },
        Some(t) => t,
    };
    let temperature = match xml::lookup(&leaves, "temperature") {
        None => {
            return Err(DecodeError::MissingField("temperature".to_owned()));
        },
        Some(t) => t,
    };
    if !crate::text::check_number(temperature.as_str()) {
        return Err(DecodeError::NotNumeric("temperature".to_owned()));
    }
    let temperature_low = match xml::lookup(&leaves, "temperature_low") {
        None => {
            return Err(DecodeError::MissingField("temperature_low".to_owned()));
        },
        Some(t) => t,
    };
    if !crate::text::check_number(temperature_low.as_str()) {
        return Err(DecodeError::NotNumeric("temperature_low".to_owned()));
    }
    let temperature_high = match xml::lookup(&leaves, "temperature_high") {
        None => {
            return Err(DecodeError::MissingField("temperature_high".to_owned()));
        },
        Some(t) => t,
    };
    if !crate::text::check_number(temperature_high.as_str()) {
        return Err(DecodeError::NotNumeric("temperature_high".to_owned()));
    }
    let temperature_units = match xml::lookup(&leaves, "temperature_units") {
        None => {
            return Err(DecodeError::MissingField("temperature_units".to_owned()));
        },
        Some(t) => t,
    };
    let humidity = match xml::lookup(&leaves, "humidity") {
        None => {
            return Err(DecodeError::MissingField("humidity".to_owned()));
        },
        Some(t) => t,
    };
    if !crate::text::check_number(humidity.as_str()) {
        return Err(DecodeError::NotNumeric("humidity".to_owned()));
    }
    let humidity_units = match xml::lookup(&leaves, "humidity_units") {
        None => {
            return Err(DecodeError::MissingField("humidity_units".to_owned()));
        },
        Some(t) => t,
    };
    let insolation = match xml::lookup(&leaves, "insolation") {
        None => {
            return Err(DecodeError::MissingField("insolation".to_owned()));
        },
        Some(t) => t,
    };
    if !crate::text::check_number(insolation.as_str()) {
        return Err(DecodeError::NotNumeric("insolation".to_owned()));
    }
    let insolation_units = match xml::lookup(&leaves, "insolation_units") {
        None => {
            return Err(DecodeError::MissingField("insolation_units".to_owned()));
        },
        Some(t) => t,
    };
    let insolation_predicted = match xml::lookup(&leaves, "insolation_predicted") {
        None => {
            return Err(DecodeError::MissingField("insolation_predicted".to_owned()));
        },
        Some(t) => t,
    };
    if !crate::text::check_number(insolation_predicted.as_str()) {
        return Err(DecodeError::NotNumeric("insolation_predicted".to_owned()));
    }
    let insolation_predicted_units = match xml::lookup(&leaves, "insolation_predicted_units") {
        None => {
            return Err(DecodeError::MissingField("insolation_predicted_units".to_owned()));
        },
        Some(t) => t,
    };
    Ok(
        CurrentObservation {
            station_long_name,
            station_name,
            station_id,
            observation_time,
            timezone,
            temperature,
            temperature_low,
            temperature_high,
            temperature_units,
            humidity,
            humidity_units,
            insolation,
            insolation_units,
            insolation_predicted,
            insolation_predicted_units,
        },
    )
}


/// A record whose field texts can stand verbatim in an XML document.
pub open spec fn renderable(v: ObservationView) -> bool {
    &&& xml::xml_text_ok(v.station_long_name)
    &&& xml::xml_text_ok(v.station_name)
    &&& xml::xml_text_ok(v.station_id)
    &&& xml::xml_text_ok(v.observation_time)
    &&& xml::xml_text_ok(v.timezone)
    &&& xml::xml_text_ok(v.temperature)
    &&& xml::xml_text_ok(v.temperature_low)
    &&& xml::xml_text_ok(v.temperature_high)
    &&& xml::xml_text_ok(v.temperature_units)
    &&& xml::xml_text_ok(v.humidity)
    &&& xml::xml_text_ok(v.humidity_units)
    &&& xml::xml_text_ok(v.insolation)
    &&& xml::xml_text_ok(v.insolation_units)
    &&& xml::xml_text_ok(v.insolation_predicted)
    &&& xml::xml_text_ok(v.insolation_predicted_units)
}

/// The record as a leaf list, in the schema's field order.
pub open spec fn obs_leaves(v: ObservationView) -> Seq<(Seq<char>, Seq<char>)> {
    seq![
        ("station_long_name"@, v.station_long_name),
        ("station_name"@, v.station_name),
        ("station_id"@, v.station_id),
        ("observation_time"@, v.observation_time),
        ("timezone"@, v.timezone),
        ("temperature"@, v.temperature),
        ("temperature_low"@, v.temperature_low),
        ("temperature_high"@, v.temperature_high),
        ("temperature_units"@, v.temperature_units),
        ("humidity"@, v.humidity),
        ("humidity_units"@, v.humidity_units),
        ("insolation"@, v.insolation),
        ("insolation_units"@, v.insolation_units),
        ("insolation_predicted"@, v.insolation_predicted),
        ("insolation_predicted_units"@, v.insolation_predicted_units),
    ]
}

/// The canonical rendering of a record as an upstream document.
pub open spec fn spec_render(v: ObservationView) -> Seq<char> {
    "<current_observation>"@ + xml::render_items(obs_leaves(v)) + "</current_observation>"@
}

fn append_elem(out: &mut String, name: &str, text: &str)
    ensures
        final(out)@ == old(out)@ + xml::spec_elem(name@, text@),
{
    out.append("<");
    out.append(name);
    out.append(">");
    out.append(text);
    out.append("</");
    out.append(name);
    out.append(">");
    proof {
        assert(final(out)@ =~= old(out)@ + xml::spec_elem(name@, text@));
    }
}

proof fn lemma_render_items_snoc(pairs: Seq<(Seq<char>, Seq<char>)>, k: int)
    requires
        0 <= k < pairs.len(),
    ensures
        xml::render_items(pairs.take(k + 1)) == xml::render_items(pairs.take(k)) + xml::spec_elem(
            pairs[k].0,
            pairs[k].1,
        ),
    decreases k,
{
    let e = xml::spec_elem(pairs[k].0, pairs[k].1);
    if k == 0 {
        assert(pairs.take(1)[0] == pairs[0]);
        assert(pairs.take(1).drop_first() =~= Seq::<(Seq<char>, Seq<char>)>::empty());
        assert(xml::render_items(pairs.take(1)) == e + xml::render_items(
            Seq::<(Seq<char>, Seq<char>)>::empty(),
        ));
        assert(e + Seq::<char>::empty() =~= e);
        assert(pairs.take(0) =~= Seq::<(Seq<char>, Seq<char>)>::empty());
        assert(Seq::<char>::empty() + e =~= e);
    } else {
        let df = pairs.drop_first();
        lemma_render_items_snoc(df, k - 1);
        assert(pairs.take(k + 1)[0] == pairs[0]);
        assert(pairs.take(k)[0] == pairs[0]);
        assert(pairs.take(k + 1).drop_first() =~= df.take(k));
        assert(pairs.take(k).drop_first() =~= df.take(k - 1));
        assert(df[k - 1] == pairs[k]);
        let e0 = xml::spec_elem(pairs[0].0, pairs[0].1);
        let a = xml::render_items(df.take(k - 1));
        assert(xml::render_items(pairs.take(k + 1)) == e0 + (a + e));
        assert(xml::render_items(pairs.take(k)) == e0 + a);
        assert(e0 + (a + e) =~= (e0 + a) + e);
    }
}

/// Appends every leaf element in order.
fn render_leaves(out: &mut String, pairs: &Vec<(String, String)>)
    ensures
        final(out)@ == old(out)@ + xml::render_items(xml::leaves_view(pairs@)),
{
    let ghost lv = xml::leaves_view(pairs@);
    let n = pairs.len();
    proof {
        assert(lv.take(0) =~= Seq::<(Seq<char>, Seq<char>)>::empty());
        assert(old(out)@ + xml::render_items(lv.take(0)) =~= old(out)@);
    }
    let mut i: usize = 0;
    while i < n
        invariant
            i <= n,
            n == pairs.len(),
            lv == xml::leaves_view(pairs@),
            out@ == old(out)@ + xml::render_items(lv.take(i as int)),
        decreases n - i,
    {
        append_elem(out, pairs[i].0.as_str(), pairs[i].1.as_str());
        proof {
            lemma_render_items_snoc(lv, i as int);
            assert(lv[i as int] == (pairs@[i as int].0@, pairs@[i as int].1@));
            assert(out@ =~= old(out)@ + xml::render_items(lv.take(i as int + 1)));
        }
        i = i + 1;
    }
    proof {
        assert(lv.take(n as int) =~= lv);
    }
}

/// Renders a record as a synthetic upstream document.
pub fn render_observation(o: &CurrentObservation) -> (r: String)
    ensures
        r@ == spec_render(o@),
{
    let mut pairs: Vec<(String, String)> = Vec::new();
    pairs.push(("station_long_name".to_owned(), o.station_long_name.clone()));
    pairs.push(("station_name".to_owned(), o.station_name.clone()));
    pairs.push(("station_id".to_owned(), o.station_id.clone()));
    pairs.push(("observation_time".to_owned(), o.observation_time.clone()));
    pairs.push(("timezone".to_owned(), o.timezone.clone()));
    pairs.push(("temperature".to_owned(), o.temperature.clone()));
    pairs.push(("temperature_low".to_owned(), o.temperature_low.clone()));
    pairs.push(("temperature_high".to_owned(), o.temperature_high.clone()));
    pairs.push(("temperature_units".to_owned(), o.temperature_units.clone()));
    pairs.push(("humidity".to_owned(), o.humidity.clone()));
    pairs.push(("humidity_units".to_owned(), o.humidity_units.clone()));
    pairs.push(("insolation".to_owned(), o.insolation.clone()));
    pairs.push(("insolation_units".to_owned(), o.insolation_units.clone()));
    pairs.push(("insolation_predicted".to_owned(), o.insolation_predicted.clone()));
    pairs.push(("insolation_predicted_units".to_owned(), o.insolation_predicted_units.clone()));
    proof {
        assert(xml::leaves_view(pairs@) =~= obs_leaves(o@));
    }
    let mut out = String::from_str("<current_observation>");
    render_leaves(&mut out, &pairs);
    out.append("</current_observation>");
    proof {
        assert(out@ =~= spec_render(o@));
    }
    out
}

/// Ground facts about the schema's tag names.
proof fn lemma_field_names_valid()
    ensures
        xml::valid_name("station_long_name"@),
        xml::valid_name("station_name"@),
        xml::valid_name("station_id"@),
        xml::valid_name("observation_time"@),
        xml::valid_name("timezone"@),
        xml::valid_name("temperature"@),
        xml::valid_name("temperature_low"@),
        xml::valid_name("temperature_high"@),
        xml::valid_name("temperature_units"@),
        xml::valid_name("humidity"@),
        xml::valid_name("humidity_units"@),
        xml::valid_name("insolation"@),
        xml::valid_name("insolation_units"@),
        xml::valid_name("insolation_predicted"@),
        xml::valid_name("insolation_predicted_units"@),
        xml::valid_name("current_observation"@),
{
    reveal_strlit("station_long_name");
    reveal_strlit("station_name");
    reveal_strlit("station_id");
    reveal_strlit("observation_time");
    reveal_strlit("timezone");
    reveal_strlit("temperature");
    reveal_strlit("temperature_low");
    reveal_strlit("temperature_high");
    reveal_strlit("temperature_units");
    reveal_strlit("humidity");
    reveal_strlit("humidity_units");
    reveal_strlit("insolation");
    reveal_strlit("insolation_units");
    reveal_strlit("insolation_predicted");
    reveal_strlit("insolation_predicted_units");
    reveal_strlit("current_observation");
}

/// Scanning a rendered record recovers exactly its leaf list.
#[verifier::rlimit(100)]
pub proof fn lemma_scan_render(v: ObservationView)
    requires
        renderable(v),
    ensures
        xml::spec_scan_document(spec_render(v)) == Some(obs_leaves(v)),
{
    reveal_strlit("<current_observation>");
    reveal_strlit("</current_observation>");
    reveal_strlit("current_observation");
    lemma_field_names_valid();
    let s = spec_render(v);
    let pre = "<current_observation>"@;
    let mid = xml::render_items(obs_leaves(v));
    let post = "</current_observation>"@;
    let ml = mid.len() as int;
    assert(pre.len() == 21 && post.len() == 22);
    assert(s.len() == 43 + ml);
    assert forall|k: int| 0 <= k < 21 implies s[k] == pre[k] by {}
    assert forall|k: int| 0 <= k < ml implies s[21 + k] == mid[k] by {}
    assert forall|k: int| 0 <= k < 22 implies s[21 + ml + k] == post[k] by {}
    assert(s[0] == '<' && !crate::text::is_ws(s[0]));
    assert(xml::spec_skip_ws(s, 0) == 0);
    assert(s[1] == 'c');
    assert forall|k: int| 1 <= k < 20 implies s[k] != '>' by {
        assert(s[k] == pre[k]);
    }
    assert(s[20] == '>');
    xml::lemma_find_at(s, 1, '>', 20);
    let root = s.subrange(1, 20);
    assert forall|k: int| 0 <= k < 19 implies root[k] == "current_observation"@[k] by {
        assert(root[k] == s[1 + k]);
        assert(s[1 + k] == pre[1 + k]);
    }
    assert(root =~= "current_observation"@);
    assert(xml::valid_name(root));
    let leaves = obs_leaves(v);
    assert forall|k: int| 0 <= k < leaves.len() implies xml::valid_name(
        (#[trigger] leaves[k]).0,
    ) && xml::xml_text_ok(leaves[k].1) by {
        if k == 0 {
            assert(leaves[k] == ("station_long_name"@, v.station_long_name));
        } else if k == 1 {
            assert(leaves[k] == ("station_name"@, v.station_name));
        } else if k == 2 {
            assert(leaves[k] == ("station_id"@, v.station_id));
        } else if k == 3 {
            assert(leaves[k] == ("observation_time"@, v.observation_time));
        } else if k == 4 {
            assert(leaves[k] == ("timezone"@, v.timezone));
        } else if k == 5 {
            assert(leaves[k] == ("temperature"@, v.temperature));
        } else if k == 6 {
            assert(leaves[k] == ("temperature_low"@, v.temperature_low));
        } else if k == 7 {
            assert(leaves[k] == ("temperature_high"@, v.temperature_high));
        } else if k == 8 {
            assert(leaves[k] == ("temperature_units"@, v.temperature_units));
        } else if k == 9 {
            assert(leaves[k] == ("humidity"@, v.humidity));
        } else if k == 10 {
            assert(leaves[k] == ("humidity_units"@, v.humidity_units));
        } else if k == 11 {
            assert(leaves[k] == ("insolation"@, v.insolation));
        } else if k == 12 {
            assert(leaves[k] == ("insolation_units"@, v.insolation_units));
        } else if k == 13 {
            assert(leaves[k] == ("insolation_predicted"@, v.insolation_predicted));
        } else {
            assert(leaves[k] == ("insolation_predicted_units"@, v.insolation_predicted_units));
        }
    }
    assert(s.subrange(21, 21 + ml) =~= mid);
    assert(s[21 + ml] == post[0] && post[0] == '<');
    assert(s[21 + ml + 1] == post[1] && post[1] == '/');
    xml::lemma_scan_items_at(s, 21, leaves);
    let e = 21 + ml + 2 + 19;
    let back = s.subrange(21 + ml + 2, e);
    assert forall|k: int| 0 <= k < 19 implies back[k] == root[k] by {
        assert(back[k] == s[21 + ml + 2 + k]);
        assert(s[21 + ml + 2 + k] == post[2 + k]);
        assert(root[k] == "current_observation"@[k]);
    }
    assert(back =~= root);
    assert(s[e] == post[21] && post[21] == '>');
    assert(e < s.len());
    assert(e + 1 == s.len());
    assert(xml::spec_skip_ws(s, e + 1) == e + 1);
    assert(xml::spec_scan_document(s) == Some(leaves));
}

/// The schema's fifteen tag names are pairwise distinct.
proof fn lemma_names_distinct()
    ensures
        "station_long_name"@ != "station_name"@,
        "station_long_name"@ != "station_id"@,
        "station_name"@ != "station_id"@,
        "station_long_name"@ != "observation_time"@,
        "station_name"@ != "observation_time"@,
        "station_id"@ != "observation_time"@,
        "station_long_name"@ != "timezone"@,
        "station_name"@ != "timezone"@,
        "station_id"@ != "timezone"@,
        "observation_time"@ != "timezone"@,
        "station_long_name"@ != "temperature"@,
        "station_name"@ != "temperature"@,
        "station_id"@ != "temperature"@,
        "observation_time"@ != "temperature"@,
        "timezone"@ != "temperature"@,
        "station_long_name"@ != "temperature_low"@,
        "station_name"@ != "temperature_low"@,
        "station_id"@ != "temperature_low"@,
        "observation_time"@ != "temperature_low"@,
        "timezone"@ != "temperature_low"@,
        "temperature"@ != "temperature_low"@,
        "station_long_name"@ != "temperature_high"@,
        "station_name"@ != "temperature_high"@,
        "station_id"@ != "temperature_high"@,
        "observation_time"@ != "temperature_high"@,
        "timezone"@ != "temperature_high"@,
        "temperature"@ != "temperature_high"@,
        "temperature_low"@ != "temperature_high"@,
        "station_long_name"@ != "temperature_units"@,
        "station_name"@ != "temperature_units"@,
        "station_id"@ != "temperature_units"@,
        "observation_time"@ != "temperature_units"@,
        "timezone"@ != "temperature_units"@,
        "temperature"@ != "temperature_units"@,
        "temperature_low"@ != "temperature_units"@,
        "temperature_high"@ != "temperature_units"@,
        "station_long_name"@ != "humidity"@,
        "station_name"@ != "humidity"@,
        "station_id"@ != "humidity"@,
        "observation_time"@ != "humidity"@,
        "timezone"@ != "humidity"@,
        "temperature"@ != "humidity"@,
        "temperature_low"@ != "humidity"@,
        "temperature_high"@ != "humidity"@,
        "temperature_units"@ != "humidity"@,
        "station_long_name"@ != "humidity_units"@,
        "station_name"@ != "humidity_units"@,
        "station_id"@ != "humidity_units"@,
        "observation_time"@ != "humidity_units"@,
        "timezone"@ != "humidity_units"@,
        "temperature"@ != "humidity_units"@,
        "temperature_low"@ != "humidity_units"@,
        "temperature_high"@ != "humidity_units"@,
        "temperature_units"@ != "humidity_units"@,
        "humidity"@ != "humidity_units"@,
        "station_long_name"@ != "insolation"@,
        "station_name"@ != "insolation"@,
        "station_id"@ != "insolation"@,
        "observation_time"@ != "insolation"@,
        "timezone"@ != "insolation"@,
        "temperature"@ != "insolation"@,
        "temperature_low"@ != "insolation"@,
        "temperature_high"@ != "insolation"@,
        "temperature_units"@ != "insolation"@,
        "humidity"@ != "insolation"@,
        "humidity_units"@ != "insolation"@,
        "station_long_name"@ != "insolation_units"@,
        "station_name"@ != "insolation_units"@,
        "station_id"@ != "insolation_units"@,
        "observation_time"@ != "insolation_units"@,
        "timezone"@ != "insolation_units"@,
        "temperature"@ != "insolation_units"@,
        "temperature_low"@ != "insolation_units"@,
        "temperature_high"@ != "insolation_units"@,
        "temperature_units"@ != "insolation_units"@,
        "humidity"@ != "insolation_units"@,
        "humidity_units"@ != "insolation_units"@,
        "insolation"@ != "insolation_units"@,
        "station_long_name"@ != "insolation_predicted"@,
        "station_name"@ != "insolation_predicted"@,
        "station_id"@ != "insolation_predicted"@,
        "observation_time"@ != "insolation_predicted"@,
        "timezone"@ != "insolation_predicted"@,
        "temperature"@ != "insolation_predicted"@,
        "temperature_low"@ != "insolation_predicted"@,
        "temperature_high"@ != "insolation_predicted"@,
        "temperature_units"@ != "insolation_predicted"@,
        "humidity"@ != "insolation_predicted"@,
        "humidity_units"@ != "insolation_predicted"@,
        "insolation"@ != "insolation_predicted"@,
        "insolation_units"@ != "insolation_predicted"@,
        "station_long_name"@ != "insolation_predicted_units"@,
        "station_name"@ != "insolation_predicted_units"@,
        "station_id"@ != "insolation_predicted_units"@,
        "observation_time"@ != "insolation_predicted_units"@,
        "timezone"@ != "insolation_predicted_units"@,
        "temperature"@ != "insolation_predicted_units"@,
        "temperature_low"@ != "insolation_predicted_units"@,
        "temperature_high"@ != "insolation_predicted_units"@,
        "temperature_units"@ != "insolation_predicted_units"@,
        "humidity"@ != "insolation_predicted_units"@,
        "humidity_units"@ != "insolation_predicted_units"@,
        "insolation"@ != "insolation_predicted_units"@,
        "insolation_units"@ != "insolation_predicted_units"@,
        "insolation_predicted"@ != "insolation_predicted_units"@,
{
    reveal_strlit("station_long_name");
    reveal_strlit("station_name");
    reveal_strlit("station_id");
    reveal_strlit("observation_time");
    reveal_strlit("timezone");
    reveal_strlit("temperature");
    reveal_strlit("temperature_low");
    reveal_strlit("temperature_high");
    reveal_strlit("temperature_units");
    reveal_strlit("humidity");
    reveal_strlit("humidity_units");
    reveal_strlit("insolation");
    reveal_strlit("insolation_units");
    reveal_strlit("insolation_predicted");
    reveal_strlit("insolation_predicted_units");
    assert("station_long_name"@.len() == 17);
    assert("station_name"@.len() == 12);
    assert("station_id"@.len() == 10);
    assert("observation_time"@.len() == 16);
    assert("timezone"@.len() == 8);
    assert("temperature"@.len() == 11);
    assert("temperature_low"@.len() == 15);
    assert("temperature_high"@.len() == 16);
    assert("temperature_units"@.len() == 17);
    assert("humidity"@.len() == 8);
    assert("humidity_units"@.len() == 14);
    assert("insolation"@.len() == 10);
    assert("insolation_units"@.len() == 16);
    assert("insolation_predicted"@.len() == 20);
    assert("insolation_predicted_units"@.len() == 26);
    assert("station_long_name"@[0] == 's');
    assert("station_name"@[0] == 's');
    assert("station_id"@[0] == 's');
    assert("observation_time"@[0] == 'o');
    assert("timezone"@[0] == 't');
    assert("temperature"@[0] == 't');
    assert("temperature_low"@[0] == 't');
    assert("temperature_high"@[0] == 't');
    assert("temperature_units"@[0] == 't');
    assert("humidity"@[0] == 'h');
    assert("humidity_units"@[0] == 'h');
    assert("insolation"@[0] == 'i');
    assert("insolation_units"@[0] == 'i');
    assert("insolation_predicted"@[0] == 'i');
    assert("insolation_predicted_units"@[0] == 'i');
}

/// Each schema field is found among the record's own leaves.
#[verifier::rlimit(100)]
proof fn lemma_obs_lookup(v: ObservationView)
    ensures
        xml::spec_lookup(obs_leaves(v), "station_long_name"@) == Some(v.station_long_name),
        xml::spec_lookup(obs_leaves(v), "station_name"@) == Some(v.station_name),
        xml::spec_lookup(obs_leaves(v), "station_id"@) == Some(v.station_id),
        xml::spec_lookup(obs_leaves(v), "observation_time"@) == Some(v.observation_time),
        xml::spec_lookup(obs_leaves(v), "timezone"@) == Some(v.timezone),
        xml::spec_lookup(obs_leaves(v), "temperature"@) == Some(v.temperature),
        xml::spec_lookup(obs_leaves(v), "temperature_low"@) == Some(v.temperature_low),
        xml::spec_lookup(obs_leaves(v), "temperature_high"@) == Some(v.temperature_high),
        xml::spec_lookup(obs_leaves(v), "temperature_units"@) == Some(v.temperature_units),
        xml::spec_lookup(obs_leaves(v), "humidity"@) == Some(v.humidity),
        xml::spec_lookup(obs_leaves(v), "humidity_units"@) == Some(v.humidity_units),
        xml::spec_lookup(obs_leaves(v), "insolation"@) == Some(v.insolation),
        xml::spec_lookup(obs_leaves(v), "insolation_units"@) == Some(v.insolation_units),
        xml::spec_lookup(obs_leaves(v), "insolation_predicted"@) == Some(v.insolation_predicted),
        xml::spec_lookup(obs_leaves(v), "insolation_predicted_units"@) == Some(
            v.insolation_predicted_units,
        ),
{
    reveal_strlit("station_long_name");
    reveal_strlit("station_name");
    reveal_strlit("station_id");
    reveal_strlit("observation_time");
    reveal_strlit("timezone");
    reveal_strlit("temperature");
    reveal_strlit("temperature_low");
    reveal_strlit("temperature_high");
    reveal_strlit("temperature_units");
    reveal_strlit("humidity");
    reveal_strlit("humidity_units");
    reveal_strlit("insolation");
    reveal_strlit("insolation_units");
    reveal_strlit("insolation_predicted");
    reveal_strlit("insolation_predicted_units");
    lemma_names_distinct();
    let l0 = obs_leaves(v);
    assert forall|m: int| 0 <= m < 1 implies (#[trigger] l0[m]).0 != l0[1].0 by {
        assert(l0[1].0 == "station_name"@);
        assert(l0[0].0 == "station_long_name"@);
        assert(l0[0].0 != l0[1].0);
    }
    assert forall|m: int| 0 <= m < 2 implies (#[trigger] l0[m]).0 != l0[2].0 by {
        assert(l0[2].0 == "station_id"@);
        if m == 0 {
            assert(l0[0].0 == "station_long_name"@);
        } else if m == 1 {
            assert(l0[1].0 == "station_name"@);
        }
    }
    assert forall|m: int| 0 <= m < 3 implies (#[trigger] l0[m]).0 != l0[3].0 by {
        assert(l0[3].0 == "observation_time"@);
        if m == 0 {
            assert(l0[0].0 == "station_long_name"@);
        } else if m == 1 {
            assert(l0[1].0 == "station_name"@);
        } else if m == 2 {
            assert(l0[2].0 == "station_id"@);
        }
    }
    assert forall|m: int| 0 <= m < 4 implies (#[trigger] l0[m]).0 != l0[4].0 by {
        assert(l0[4].0 == "timezone"@);
        if m == 0 {
            assert(l0[0].0 == "station_long_name"@);
        } else if m == 1 {
            assert(l0[1].0 == "station_name"@);
        } else if m == 2 {
            assert(l0[2].0 == "station_id"@);
        } else if m == 3 {
            assert(l0[3].0 == "observation_time"@);
        }
    }
    assert forall|m: int| 0 <= m < 5 implies (#[trigger] l0[m]).0 != l0[5].0 by {
        assert(l0[5].0 == "temperature"@);
        if m == 0 {
            assert(l0[0].0 == "station_long_name"@);
        } else if m == 1 {
            assert(l0[1].0 == "station_name"@);
        } else if m == 2 {
            assert(l0[2].0 == "station_id"@);
        } else if m == 3 {
            assert(l0[3].0 == "observation_time"@);
        } else if m == 4 {
            assert(l0[4].0 == "timezone"@);
        }
    }
    assert forall|m: int| 0 <= m < 6 implies (#[trigger] l0[m]).0 != l0[6].0 by {
        assert(l0[6].0 == "temperature_low"@);
        if m == 0 {
            assert(l0[0].0 == "station_long_name"@);
        } else if m == 1 {
            assert(l0[1].0 == "station_name"@);
        } else if m == 2 {
            assert(l0[2].0 == "station_id"@);
        } else if m == 3 {
            assert(l0[3].0 == "observation_time"@);
        } else if m == 4 {
            assert(l0[4].0 == "timezone"@);
        } else if m == 5 {
            assert(l0[5].0 == "temperature"@);
        }
    }
    assert forall|m: int| 0 <= m < 7 implies (#[trigger] l0[m]).0 != l0[7].0 by {
        assert(l0[7].0 == "temperature_high"@);
        if m == 0 {
            assert(l0[0].0 == "station_long_name"@);
        } else if m == 1 {
            assert(l0[1].0 == "station_name"@);
        } else if m == 2 {
            assert(l0[2].0 == "station_id"@);
        } else if m == 3 {
            assert(l0[3].0 == "observation_time"@);
        } else if m == 4 {
            assert(l0[4].0 == "timezone"@);
        } else if m == 5 {
            assert(l0[5].0 == "temperature"@);
        } else if m == 6 {
            assert(l0[6].0 == "temperature_low"@);
        }
    }
    assert forall|m: int| 0 <= m < 8 implies (#[trigger] l0[m]).0 != l0[8].0 by {
        assert(l0[8].0 == "temperature_units"@);
        if m == 0 {
            assert(l0[0].0 == "station_long_name"@);
        } else if m == 1 {
            assert(l0[1].0 == "station_name"@);
        } else if m == 2 {
            assert(l0[2].0 == "station_id"@);
        } else if m == 3 {
            assert(l0[3].0 == "observation_time"@);
        } else if m == 4 {
            assert(l0[4].0 == "timezone"@);
        } else if m == 5 {
            assert(l0[5].0 == "temperature"@);
        } else if m == 6 {
            assert(l0[6].0 == "temperature_low"@);
        } else if m == 7 {
            assert(l0[7].0 == "temperature_high"@);
        }
    }
    assert forall|m: int| 0 <= m < 9 implies (#[trigger] l0[m]).0 != l0[9].0 by {
        assert(l0[9].0 == "humidity"@);
        if m == 0 {
            assert(l0[0].0 == "station_long_name"@);
        } else if m == 1 {
            assert(l0[1].0 == "station_name"@);
        } else if m == 2 {
            assert(l0[2].0 == "station_id"@);
        } else if m == 3 {
            assert(l0[3].0 == "observation_time"@);
        } else if m == 4 {
            assert(l0[4].0 == "timezone"@);
        } else if m == 5 {
            assert(l0[5].0 == "temperature"@);
        } else if m == 6 {
            assert(l0[6].0 == "temperature_low"@);
        } else if m == 7 {
            assert(l0[7].0 == "temperature_high"@);
        } else if m == 8 {
            assert(l0[8].0 == "temperature_units"@);
        }
    }
    assert forall|m: int| 0 <= m < 10 implies (#[trigger] l0[m]).0 != l0[10].0 by {
        assert(l0[10].0 == "humidity_units"@);
        if m == 0 {
            assert(l0[0].0 == "station_long_name"@);
        } else if m == 1 {
            assert(l0[1].0 == "station_name"@);
        } else if m == 2 {
            assert(l0[2].0 == "station_id"@);
        } else if m == 3 {
            assert(l0[3].0 == "observation_time"@);
        } else if m == 4 {
            assert(l0[4].0 == "timezone"@);
        } else if m == 5 {
            assert(l0[5].0 == "temperature"@);
        } else if m == 6 {
            assert(l0[6].0 == "temperature_low"@);
        } else if m == 7 {
            assert(l0[7].0 == "temperature_high"@);
        } else if m == 8 {
            assert(l0[8].0 == "temperature_units"@);
        } else if m == 9 {
            assert(l0[9].0 == "humidity"@);
        }
    }
    assert forall|m: int| 0 <= m < 11 implies (#[trigger] l0[m]).0 != l0[11].0 by {
        assert(l0[11].0 == "insolation"@);
        if m == 0 {
            assert(l0[0].0 == "station_long_name"@);
        } else if m == 1 {
            assert(l0[1].0 == "station_name"@);
        } else if m == 2 {
            assert(l0[2].0 == "station_id"@);
        } else if m == 3 {
            assert(l0[3].0 == "observation_time"@);
        } else if m == 4 {
            assert(l0[4].0 == "timezone"@);
        } else if m == 5 {
            assert(l0[5].0 == "temperature"@);
        } else if m == 6 {
            assert(l0[6].0 == "temperature_low"@);
        } else if m == 7 {
            assert(l0[7].0 == "temperature_high"@);
        } else if m == 8 {
            assert(l0[8].0 == "temperature_units"@);
        } else if m == 9 {
            assert(l0[9].0 == "humidity"@);
        } else if m == 10 {
            assert(l0[10].0 == "humidity_units"@);
        }
    }
    assert forall|m: int| 0 <= m < 12 implies (#[trigger] l0[m]).0 != l0[12].0 by {
        assert(l0[12].0 == "insolation_units"@);
        if m == 0 {
            assert(l0[0].0 == "station_long_name"@);
        } else if m == 1 {
            assert(l0[1].0 == "station_name"@);
        } else if m == 2 {
            assert(l0[2].0 == "station_id"@);
        } else if m == 3 {
            assert(l0[3].0 == "observation_time"@);
        } else if m == 4 {
            assert(l0[4].0 == "timezone"@);
        } else if m == 5 {
            assert(l0[5].0 == "temperature"@);
        } else if m == 6 {
            assert(l0[6].0 == "temperature_low"@);
        } else if m == 7 {
            assert(l0[7].0 == "temperature_high"@);
        } else if m == 8 {
            assert(l0[8].0 == "temperature_units"@);
        } else if m == 9 {
            assert(l0[9].0 == "humidity"@);
        } else if m == 10 {
            assert(l0[10].0 == "humidity_units"@);
        } else if m == 11 {
            assert(l0[11].0 == "insolation"@);
        }
    }
    assert forall|m: int| 0 <= m < 13 implies (#[trigger] l0[m]).0 != l0[13].0 by {
        assert(l0[13].0 == "insolation_predicted"@);
        if m == 0 {
            assert(l0[0].0 == "station_long_name"@);
        } else if m == 1 {
            assert(l0[1].0 == "station_name"@);
        } else if m == 2 {
            assert(l0[2].0 == "station_id"@);
        } else if m == 3 {
            assert(l0[3].0 == "observation_time"@);
        } else if m == 4 {
            assert(l0[4].0 == "timezone"@);
        } else if m == 5 {
            assert(l0[5].0 == "temperature"@);
        } else if m == 6 {
            assert(l0[6].0 == "temperature_low"@);
        } else if m == 7 {
            assert(l0[7].0 == "temperature_high"@);
        } else if m == 8 {
            assert(l0[8].0 == "temperature_units"@);
        } else if m == 9 {
            assert(l0[9].0 == "humidity"@);
        } else if m == 10 {
            assert(l0[10].0 == "humidity_units"@);
        } else if m == 11 {
            assert(l0[11].0 == "insolation"@);
        } else if m == 12 {
            assert(l0[12].0 == "insolation_units"@);
        }
    }
    assert forall|m: int| 0 <= m < 14 implies (#[trigger] l0[m]).0 != l0[14].0 by {
        assert(l0[14].0 == "insolation_predicted_units"@);
        if m == 0 {
            assert(l0[0].0 == "station_long_name"@);
        } else if m == 1 {
            assert(l0[1].0 == "station_name"@);
        } else if m == 2 {
            assert(l0[2].0 == "station_id"@);
        } else if m == 3 {
            assert(l0[3].0 == "observation_time"@);
        } else if m == 4 {
            assert(l0[4].0 == "timezone"@);
        } else if m == 5 {
            assert(l0[5].0 == "temperature"@);
        } else if m == 6 {
            assert(l0[6].0 == "temperature_low"@);
        } else if m == 7 {
            assert(l0[7].0 == "temperature_high"@);
        } else if m == 8 {
            assert(l0[8].0 == "temperature_units"@);
        } else if m == 9 {
            assert(l0[9].0 == "humidity"@);
        } else if m == 10 {
            assert(l0[10].0 == "humidity_units"@);
        } else if m == 11 {
            assert(l0[11].0 == "insolation"@);
        } else if m == 12 {
            assert(l0[12].0 == "insolation_units"@);
        } else if m == 13 {
            assert(l0[13].0 == "insolation_predicted"@);
        }
    }
    xml::lemma_lookup_at(l0, 0);
    xml::lemma_lookup_at(l0, 1);
    xml::lemma_lookup_at(l0, 2);
    xml::lemma_lookup_at(l0, 3);
    xml::lemma_lookup_at(l0, 4);
    xml::lemma_lookup_at(l0, 5);
    xml::lemma_lookup_at(l0, 6);
    xml::lemma_lookup_at(l0, 7);
    xml::lemma_lookup_at(l0, 8);
    xml::lemma_lookup_at(l0, 9);
    xml::lemma_lookup_at(l0, 10);
    xml::lemma_lookup_at(l0, 11);
    xml::lemma_lookup_at(l0, 12);
    xml::lemma_lookup_at(l0, 13);
    xml::lemma_lookup_at(l0, 14);
}

/// Round trip: a well-formed record, rendered as a document and decoded
/// again, comes back exactly field for field.
#[verifier::rlimit(100)]
pub proof fn lemma_decode_render(v: ObservationView)
    requires
        obs_wf(v),
        renderable(v),
    ensures
        spec_decode(spec_render(v)) == Ok::<ObservationView, DecodeFailure>(v),
{
    lemma_scan_render(v);
    lemma_obs_lookup(v);
    let leaves = obs_leaves(v);
    assert(first_problem(leaves) is None);
    assert(obs_of_leaves(leaves) == v);
}

/// Every required field of the schema is present among the leaves.
pub open spec fn required_fields_present(leaves: Seq<(Seq<char>, Seq<char>)>) -> bool {
    &&& has_field(leaves, "station_long_name"@)
    &&& has_field(leaves, "station_name"@)
    &&& has_field(leaves, "station_id"@)
    &&& has_field(leaves, "observation_time"@)
    &&& has_field(leaves, "timezone"@)
    &&& has_field(leaves, "temperature"@)
    &&& has_field(leaves, "temperature_low"@)
    &&& has_field(leaves, "temperature_high"@)
    &&& has_field(leaves, "temperature_units"@)
    &&& has_field(leaves, "humidity"@)
    &&& has_field(leaves, "humidity_units"@)
    &&& has_field(leaves, "insolation"@)
    &&& has_field(leaves, "insolation_units"@)
    &&& has_field(leaves, "insolation_predicted"@)
    &&& has_field(leaves, "insolation_predicted_units"@)
}

/// Every numeric field of the schema carries decimal-number text.
pub open spec fn numeric_fields_numeric(leaves: Seq<(Seq<char>, Seq<char>)>) -> bool {
    &&& is_number(field_of(leaves, "temperature"@))
    &&& is_number(field_of(leaves, "temperature_low"@))
    &&& is_number(field_of(leaves, "temperature_high"@))
    &&& is_number(field_of(leaves, "humidity"@))
    &&& is_number(field_of(leaves, "insolation"@))
    &&& is_number(field_of(leaves, "insolation_predicted"@))
}

/// A document that scans but misses a required field, or carries non-numeric
/// text in a numeric field, never decodes; nor does one that does not scan.
pub proof fn lemma_schema_violation_fails(s: Seq<char>)
    requires
        (match xml::spec_scan_document(s) {
            Some(leaves) => !required_fields_present(leaves) || !numeric_fields_numeric(leaves),
            None => true,
        }),
    ensures
        spec_decode(s) is Err,
{
    match xml::spec_scan_document(s) {
        None => {},
        Some(leaves) => {
            if first_problem(leaves) is None {
                assert(required_fields_present(leaves));
                assert(numeric_fields_numeric(leaves));
            }
        },
    }
}

} // verus!
