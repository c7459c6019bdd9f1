use vstd::prelude::*;

verus! {

/// `csv::Error`, what the CSV writer reports when it cannot write a record.
/// Nothing is known of what it holds.
#[verifier::external_type_specification]
#[verifier::external_body]
pub struct ExCsvError(csv::Error);

/// The bytes that a CSV writer with the default settings writes for one
/// record with these fields: the fields, quoted where they have to be and
/// separated by commas, and the record terminator.
pub uninterp spec fn csv_record_bytes(fields: Seq<Seq<char>>) -> Seq<u8>;

/// `csv::Writer::write_record`, on a writer with the default settings that
/// writes into memory and has written nothing yet. The writer reports an
/// error only where the writer beneath it fails or where a record has
/// another number of fields than the first one. Here the writer beneath is a
/// `Vec<u8>`, which never fails, and the record is the first. So the record
/// is accepted, and the bytes that were written are those of that one record.
#[verifier::external_body]
fn csv_encode_record(fields: &Vec<String>) -> (encoded: Result<Vec<u8>, csv::Error>)
    ensures
        encoded is Ok,
        encoded matches Ok(bytes) ==> bytes@ == csv_record_bytes(fields.deep_view()),
{
    let mut writer = csv::Writer::from_writer(Vec::new());
    writer.write_record(fields)?;
    writer.into_inner().map_err(|e| csv::Error::from(e.into_error()))
}

/// Why a record was not written.
#[derive(Clone, Copy, Debug, PartialEq, Eq, Structural)]
pub enum SinkError {
    /// The header row has been written already.
    HeaderAlreadyWritten,
    /// A data row was handed in before the header row.
    MissingHeader,
    /// A data row has another number of fields than the header row.
    FieldCountMismatch,
}

/// The bytes of a sequence of records, one after the other.
pub open spec fn csv_bytes(records: Seq<Seq<Seq<char>>>) -> Seq<u8>
    decreases records.len(),
{
    if records.len() == 0 {
        Seq::empty()
    } else {
        csv_bytes(records.drop_last()) + csv_record_bytes(records.last())
    }
}

/// What writing `fields` as the header row does to a sink that holds
/// `records`: the header is refused where there is one already.
pub open spec fn header_outcome(records: Seq<Seq<Seq<char>>>) -> Result<(), SinkError> {
    if records.len() > 0 {
        Err(SinkError::HeaderAlreadyWritten)
    } else {
        Ok(())
    }
}

/// What writing a data row of `width` fields does to a sink that holds
/// `records`: the row is refused where there is no header row yet, or where
/// the header row has another number of fields.
pub open spec fn row_outcome(records: Seq<Seq<Seq<char>>>, width: nat) -> Result<(), SinkError> {
    if records.len() == 0 {
        Err(SinkError::MissingHeader)
    } else if records[0].len() != width {
        Err(SinkError::FieldCountMismatch)
    } else {
        Ok(())
    }
}

/// A record sink that keeps the CSV text in memory: a header row first, then
/// data rows with as many fields as the header, in the order they were written.
pub struct RecordSink {
    bytes: Vec<u8>,
    columns: usize,
    has_header: bool,
    records: Ghost<Seq<Seq<Seq<char>>>>,
}

impl RecordSink {
    /// The records written so far, the header row first.
    pub closed spec fn records(&self) -> Seq<Seq<Seq<char>>> {
        self.records@
    }

    /// What the sink holds is consistent: its bytes are those of its
    /// records, and every record has as many fields as the header row.
    pub closed spec fn wf(&self) -> bool {
        &&& self.bytes@ == csv_bytes(self.records@)
        &&& self.has_header == (self.records@.len() > 0)
        &&& forall|i: int| 0 <= i < self.records@.len() ==> #[trigger] self.records@[i].len() == self.columns
    }

    /// A sink that holds nothing yet.
    pub fn new() -> (sink: RecordSink)
        ensures
            sink.wf(),
            sink.records() == Seq::<Seq<Seq<char>>>::empty(),
    {
        RecordSink { bytes: Vec::new(), columns: 0, has_header: false, records: Ghost(Seq::empty()) }
    }

    /// Every record of a consistent sink has as many fields as its header row.
    pub proof fn lemma_uniform_width(&self)
        requires
            self.wf(),
        ensures
            forall|i: int|
                0 <= i < self.records().len() ==> (#[trigger] self.records()[i]).len()
                    == self.records()[0].len(),
    {
    }

    /// Whether the header row has been written.
    pub fn has_header(&self) -> (written: bool)
        requires
            self.wf(),
        ensures
            written == (self.records().len() > 0),
    {
        self.has_header
    }

    /// Appends the bytes of one record.
    fn append_record(&mut self, fields: &Vec<String>)
        requires
            old(self).wf(),
            old(self).has_header ==> fields.len() == old(self).columns,
        ensures
            final(self).wf(),
            final(self).records() == old(self).records().push(fields.deep_view()),
    {
        let encoded = csv_encode_record(fields).unwrap();
        let ghost before = self.records@;
        self.bytes.extend_from_slice(encoded.as_slice());
        self.columns = fields.len();
        self.has_header = true;
        self.records = Ghost(before.push(fields.deep_view()));
        proof {
            let after = self.records@;
            assert(after.drop_last() =~= before);
            assert(after.last() == fields.deep_view());
            assert(csv_bytes(after) == csv_bytes(before) + csv_record_bytes(after.last()));
            assert(self.bytes@ == csv_bytes(after));
            assert(fields.deep_view().len() == fields.len());
            assert forall|i: int| 0 <= i < after.len() implies #[trigger] after[i].len()
                == self.columns by {
                if i < before.len() {
                    assert(after[i] == before[i]);
                }
            }
        }
    }

    /// Writes the header row. It is written once, before any data row: a
    /// second header is refused, and the sink is then unchanged.
    pub fn write_header(&mut self, names: &Vec<String>) -> (written: Result<(), SinkError>)
        requires
            old(self).wf(),
        ensures
            final(self).wf(),
            written == header_outcome(old(self).records()),
            written is Ok ==> final(self).records() == seq![names.deep_view()],
            written is Err ==> final(self).records() == old(self).records(),
    {
        if self.has_header {
            return Err(SinkError::HeaderAlreadyWritten);
        }
        self.append_record(names);
        assert(self.records() =~= seq![names.deep_view()]);
        Ok(())
    }

    /// Appends a data row. The header row has to be there, and the row has
    /// to have as many fields as it; a row that is refused leaves the sink
    /// unchanged.
    pub fn write_row(&mut self, fields: &Vec<String>) -> (written: Result<(), SinkError>)
        requires
            old(self).wf(),
        ensures
            final(self).wf(),
            written == row_outcome(old(self).records(), fields.len() as nat),
            written is Ok ==> final(self).records() == old(self).records().push(fields.deep_view()),
            written is Err ==> final(self).records() == old(self).records(),
    {
        if !self.has_header {
            return Err(SinkError::MissingHeader);
        }
        if fields.len() != self.columns {
            return Err(SinkError::FieldCountMismatch);
        }
        self.append_record(fields);
        Ok(())
    }

    /// The CSV text written so far.
    pub fn bytes(&self) -> (bytes: &Vec<u8>)
        requires
            self.wf(),
        ensures
            bytes@ == csv_bytes(self.records()),
    {
        &self.bytes
    }

    /// Releases the sink and hands out the CSV text, complete with every
    /// record that was written.
    pub fn into_bytes(self) -> (bytes: Vec<u8>)
        requires
            self.wf(),
        ensures
            bytes@ == csv_bytes(self.records()),
    {
        self.bytes
    }
}

} // verus!
