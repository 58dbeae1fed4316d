use vstd::prelude::*;
use vstd::string::StringExecFns;
use crate::error::IngestError;
use crate::value::{Record, RecordModel, Value, ValueModel, has_key};
use crate::sql::records_of;
use quick_xml::events::Event as Parsed;
use quick_xml::Reader as XmlReader;

verus! {

/// The events of an XML document that rows are read from.
#[derive(Debug, PartialEq)]
pub enum XmlEvent {
    Start(String),
    /// An element without content, such as `<a/>`.
    Empty(String),
    Text(String),
    /// An entity or character reference in text, by its name (`amp`, `#38`).
    Ref(String),
    End,
    /// Any other event: a comment, a declaration, a processing instruction.
    Other,
}

pub enum XmlEventModel {
    Start(Seq<char>),
    Empty(Seq<char>),
    Text(Seq<char>),
    Ref(Seq<char>),
    End,
    Other,
}

impl View for XmlEvent {
    type V = XmlEventModel;

    open spec fn view(&self) -> XmlEventModel {
        match self {
            XmlEvent::Start(n) => XmlEventModel::Start(n@),
            XmlEvent::Empty(n) => XmlEventModel::Empty(n@),
            XmlEvent::Text(t) => XmlEventModel::Text(t@),
            XmlEvent::Ref(n) => XmlEventModel::Ref(n@),
            XmlEvent::End => XmlEventModel::End,
            XmlEvent::Other => XmlEventModel::Other,
        }
    }
}

pub open spec fn events_of(v: Seq<XmlEvent>) -> Seq<XmlEventModel> {
    v.map_values(|e: XmlEvent| e@)
}

/// The events that XML text reads as, where it reads.
pub uninterp spec fn xml_events_of(text: Seq<char>) -> Option<Seq<XmlEventModel>>;

/// Relies on quick_xml::Reader::read_event: the start tags, empty elements,
/// text (CDATA included), references and end tags of the document in order,
/// each other event as `Other`, or an error, depending on the text alone.
#[verifier::external_body]
fn read_xml_events(text: &str) -> (r: Option<Vec<XmlEvent>>)
    ensures
        match r {
            Some(evs) => xml_events_of(text@) == Some(events_of(evs@)),
            None => xml_events_of(text@) is None,
        },
{
    let mut reader = XmlReader::from_str(text);
    let mut out = vec![];
    loop {
        match reader.read_event().ok()? {
            Parsed::Start(e) => out.push(XmlEvent::Start(e.name().0.into())),
            Parsed::Empty(e) => out.push(XmlEvent::Empty(e.name().0.into())),
            Parsed::Text(t) => out.push(XmlEvent::Text(t.to_string())),
            Parsed::CData(t) => out.push(XmlEvent::Text(t.to_string())),
            Parsed::GeneralRef(r) => out.push(XmlEvent::Ref(r.to_string())),
            Parsed::End(_) => out.push(XmlEvent::End),
            Parsed::Eof => return Some(out),
            _ => out.push(XmlEvent::Other),
        }
    }
}

/// Where the reading of rows stands after a prefix of the events: the
/// element depth, the row being read, the field being read (name and text
/// so far), the rows read, and whether a row named a field twice.
pub struct XmlState {
    pub depth: nat,
    pub current: Option<RecordModel>,
    pub field: Option<(Seq<char>, Seq<char>)>,
    pub rows: Seq<RecordModel>,
    pub failed: bool,
}

/// An element opens: under the root it starts a row, under a row a field.
pub open spec fn xml_start(st: XmlState, name: Seq<char>) -> XmlState {
    let d = st.depth + 1;
    XmlState {
        depth: d,
        current: if d == 2 {
            Some(Seq::empty())
        } else {
            st.current
        },
        field: if d == 3 {
            Some((name, Seq::empty()))
        } else {
            st.field
        },
        ..st
    }
}

/// Text inside a field is added to its value; other text is ignored.
pub open spec fn xml_text(st: XmlState, t: Seq<char>) -> XmlState {
    match st.field {
        Some((k, v)) => XmlState { field: Some((k, v + t)), ..st },
        None => st,
    }
}

/// An element closes: a field joins its row, a row joins the rows.
pub open spec fn xml_end(st: XmlState) -> XmlState {
    let d = if st.depth > 0 {
        (st.depth - 1) as nat
    } else {
        0
    };
    if st.depth == 3 {
        match (st.current, st.field) {
            (Some(r), Some((k, v))) => if k.len() > 0 && !has_key(r, k) {
                XmlState {
                    depth: d,
                    current: Some(r.push((k, ValueModel::Text(v)))),
                    field: None,
                    ..st
                }
            } else {
                XmlState { depth: d, field: None, failed: true, ..st }
            },
            _ => XmlState { depth: d, field: None, ..st },
        }
    } else if st.depth == 2 {
        match st.current {
            Some(r) => XmlState { depth: d, current: None, rows: st.rows.push(r), ..st },
            None => XmlState { depth: d, ..st },
        }
    } else {
        XmlState { depth: d, ..st }
    }
}

/// The text a reference stands for: one of the five predefined entities,
/// or else the reference as written.
pub open spec fn entity_text(name: Seq<char>) -> Seq<char> {
    if name == "amp"@ {
        "&"@
    } else if name == "lt"@ {
        "<"@
    } else if name == "gt"@ {
        ">"@
    } else if name == "quot"@ {
        "\""@
    } else if name == "apos"@ {
        "'"@
    } else {
        "&"@ + name + ";"@
    }
}

/// The reading of rows after one more event. Each element under the root is
/// a row; each element under a row is a field whose text is its value. An
/// empty element opens and closes at once. Other events change nothing.
pub open spec fn xml_apply(st: XmlState, ev: XmlEventModel) -> XmlState {
    match ev {
        XmlEventModel::Start(name) => xml_start(st, name),
        XmlEventModel::Empty(name) => xml_end(xml_start(st, name)),
        XmlEventModel::Text(t) => xml_text(st, t),
        XmlEventModel::Ref(name) => xml_text(st, entity_text(name)),
        XmlEventModel::End => xml_end(st),
        XmlEventModel::Other => st,
    }
}

/// The reading of rows after the events `evs`.
pub open spec fn xml_state(evs: Seq<XmlEventModel>) -> XmlState
    decreases evs.len(),
{
    if evs.len() == 0 {
        XmlState { depth: 0, current: None, field: None, rows: Seq::empty(), failed: false }
    } else {
        xml_apply(xml_state(evs.drop_last()), evs.last())
    }
}

/// The records that the events `evs` give, or `DecodeError` where a row
/// names a field twice or not at all.
pub open spec fn xml_records(evs: Seq<XmlEventModel>) -> Result<Seq<RecordModel>, IngestError> {
    let st = xml_state(evs);
    if st.failed {
        Err(IngestError::DecodeError)
    } else {
        Ok(st.rows)
    }
}

/// The text that the reference `name` stands for.
pub fn entity(name: &String) -> (r: String)
    ensures
        r@ == entity_text(name@),
{
    if *name == String::from_str("amp") {
        String::from_str("&")
    } else if *name == String::from_str("lt") {
        String::from_str("<")
    } else if *name == String::from_str("gt") {
        String::from_str(">")
    } else if *name == String::from_str("quot") {
        String::from_str("\"")
    } else if *name == String::from_str("apos") {
        String::from_str("'")
    } else {
        let mut r = String::from_str("&");
        r.append(name.as_str());
        r.append(";");
        r
    }
}

/// The reading of rows in progress.
struct RowReading {
    depth: usize,
    current: Option<Record>,
    field: Option<(String, String)>,
    rows: Vec<Record>,
    failed: bool,
}

impl RowReading {
    spec fn model(&self) -> XmlState {
        XmlState {
            depth: self.depth as nat,
            current: match self.current {
                Some(c) => Some(c@),
                None => None,
            },
            field: match self.field {
                Some((k, v)) => Some((k@, v@)),
                None => None,
            },
            rows: records_of(self.rows@),
            failed: self.failed,
        }
    }

    fn start(&mut self, name: &String)
        requires
            old(self).depth < usize::MAX,
        ensures
            final(self).model() == xml_start(old(self).model(), name@),
    {
        self.depth = self.depth + 1;
        if self.depth == 2 {
            self.current = Some(Record::new());
        }
        if self.depth == 3 {
            self.field = Some((name.clone(), String::new()));
        }
    }

    fn text(&mut self, t: &str)
        ensures
            final(self).model() == xml_text(old(self).model(), t@),
    {
        match self.field.take() {
            Some((k, v)) => {
                let mut v = v;
                v.append(t);
                self.field = Some((k, v));
            },
            None => {},
        }
    }

    fn end(&mut self)
        ensures
            final(self).model() == xml_end(old(self).model()),
    {
        if self.depth == 3 {
            if let Some((k, v)) = self.field.take() {
                if let Some(mut r) = self.current.take() {
                    let ok = r.push(k, Value::Text(v));
                    if !ok {
                        self.failed = true;
                    }
                    self.current = Some(r);
                }
            }
        } else if self.depth == 2 {
            if let Some(r) = self.current.take() {
                let ghost before = self.rows@;
                self.rows.push(r);
                assert(records_of(self.rows@) =~= records_of(before).push(r@));
            }
        }
        if self.depth > 0 {
            self.depth = self.depth - 1;
        }
    }
}

/// Reads the rows of a document from its events.
pub fn records_from_xml_events(events: &Vec<XmlEvent>) -> (r: Result<Vec<Record>, IngestError>)
    ensures
        match r {
            Ok(rs) => xml_records(events_of(events@)) == Ok::<Seq<RecordModel>, IngestError>(
                records_of(rs@),
            ),
            Err(e) => xml_records(events_of(events@)) == Err::<Seq<RecordModel>, IngestError>(e),
        },
{
    let ghost evs = events_of(events@);
    let mut st = RowReading { depth: 0, current: None, field: None, rows: Vec::new(), failed: false };
    let mut i: usize = 0;
    assert(evs.subrange(0, 0) =~= Seq::<XmlEventModel>::empty());
    assert(records_of(st.rows@) =~= Seq::<RecordModel>::empty());
    while i < events.len()
        invariant
            0 <= i <= events@.len(),
            st.depth <= i,
            evs == events_of(events@),
            st.model() == xml_state(evs.subrange(0, i as int)),
        decreases events@.len() - i,
    {
        proof {
            assert(evs.subrange(0, i + 1).drop_last() =~= evs.subrange(0, i as int));
        }
        match &events[i] {
            XmlEvent::Start(name) => st.start(name),
            XmlEvent::Empty(name) => {
                st.start(name);
                st.end();
            },
            XmlEvent::Text(t) => st.text(t.as_str()),
            XmlEvent::Ref(name) => {
                let t = entity(name);
                st.text(t.as_str());
            },
            XmlEvent::End => st.end(),
            XmlEvent::Other => {},
        }
        i = i + 1;
    }
    assert(evs.subrange(0, events@.len() as int) =~= evs);
    if st.failed {
        Err(IngestError::DecodeError)
    } else {
        Ok(st.rows)
    }
}

/// The records of XML text: each element under the root is a record, each
/// element under it a field of text; `DecodeError` where the text does not
/// read as XML or a record names a field twice or not at all.
pub fn records_from_xml(text: &str) -> (r: Result<Vec<Record>, IngestError>)
    ensures
        match xml_events_of(text@) {
            None => r == Err::<Vec<Record>, IngestError>(IngestError::DecodeError),
            Some(evs) => match r {
                Ok(rs) => xml_records(evs) == Ok::<Seq<RecordModel>, IngestError>(records_of(rs@)),
                Err(e) => xml_records(evs) == Err::<Seq<RecordModel>, IngestError>(e),
            },
        },
{
    match read_xml_events(text) {
        None => Err(IngestError::DecodeError),
        Some(events) => records_from_xml_events(&events),
    }
}

} // verus!
