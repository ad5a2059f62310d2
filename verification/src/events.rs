use vstd::prelude::*;

verus! {

/// One event of a tree-structured document, as the pull reader hands it out.
#[derive(Debug, Clone, PartialEq)]
pub enum TreeEvent {
    /// A start tag with its attribute list, each attribute a name/value pair
    /// in document order.
    Start { name: String, attrs: Vec<(String, String)> },
    /// An end tag.
    End { name: String },
    /// The end of the document.
    DocEnd,
    /// Anything else: text, comments, processing content. The parsers ignore
    /// these.
    Other,
    /// A low-level syntax error; the reader yields nothing further after it.
    ReadError { message: String },
}

/// The pull reader over one document, held opaquely: the parsers never look
/// inside it, they only pull events one at a time.
#[verifier::external_body]
struct RawReader {
    inner: xml::reader::EventReader<std::io::Cursor<Vec<u8>>>,
}

/// Relies on `xml::reader::EventReader::new`: wraps the bytes in a pull
/// parser positioned before the first event.
#[verifier::external_body]
fn make_reader(bytes: Vec<u8>) -> RawReader {
    RawReader { inner: xml::reader::EventReader::new(std::io::Cursor::new(bytes)) }
}

/// Relies on `xml::reader::EventReader::next`: pulls the next event of the
/// document, here reduced to what the parsers read of it. Nothing is assumed
/// of the result: the parsers state what holds of every event sequence.
#[verifier::external_body]
fn next_raw(reader: &mut RawReader) -> TreeEvent {
    match reader.inner.next() {
        Ok(xml::reader::XmlEvent::StartElement { name, attributes, .. }) => TreeEvent::Start {
            name: name.local_name,
            attrs: attributes.into_iter().map(|a| (a.name.local_name, a.value)).collect(),
        },
        Ok(xml::reader::XmlEvent::EndElement { name }) => TreeEvent::End {
            name: name.local_name,
        },
        Ok(xml::reader::XmlEvent::EndDocument) => TreeEvent::DocEnd,
        Ok(_) => TreeEvent::Other,
        Err(e) => TreeEvent::ReadError { message: format!("{}", e) },
    }
}

/// Reads every event of the document into a vector, stopping after the end
/// of the document or after the first read error. The budget is generous:
/// the reader hands out at most a handful more events than the document has
/// bytes, and if it were ever exceeded the vector would end in a read error,
/// which every parser surfaces as a decoding error.
pub fn read_events(bytes: Vec<u8>) -> Vec<TreeEvent> {
    let cap: usize = if bytes.len() > usize::MAX - 8 {
        usize::MAX
    } else {
        bytes.len() + 8
    };
    let mut reader = make_reader(bytes);
    let mut events: Vec<TreeEvent> = Vec::new();
    let mut i: usize = 0;
    while i < cap
        decreases cap - i,
    {
        let e = next_raw(&mut reader);
        match e {
            TreeEvent::DocEnd => {
                events.push(TreeEvent::DocEnd);
                return events;
            },
            TreeEvent::ReadError { message } => {
                events.push(TreeEvent::ReadError { message });
                return events;
            },
            _ => {
                events.push(e);
            },
        }
        i += 1;
    }
    events.push(TreeEvent::ReadError { message: "event budget exceeded".to_owned() });
    events
}

} // verus!
