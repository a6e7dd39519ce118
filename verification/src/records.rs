//! The persisted shape of a help request: an ordered record of four text
//! fields — description, link, attribution, and the creation timestamp in
//! milliseconds rendered as decimal text. Decoding is exact and total: a
//! record with the wrong number of fields, an unreadable timestamp, or a zero
//! timestamp is rejected with a `DecodeError`, never a partial value.

use vstd::prelude::*;

use crate::errors::DecodeError;
use crate::text::{
    i64_to_string, lemma_render_parse_i64, parse_i64, spec_parse_i64, spec_render_i64,
};

verus! {

/// A help request as the queue hands it to helpers.
#[derive(Clone, Debug)]
pub struct HelpRequest {
    pub description: String,
    pub link: String,
    pub attribution: String,
    /// Milliseconds since the epoch; never zero in a decoded record.
    pub timestamp: i64,
}

/// The mathematical content of a help request.
pub struct HelpRequestModel {
    pub description: Seq<char>,
    pub link: Seq<char>,
    pub attribution: Seq<char>,
    pub timestamp: int,
}

impl View for HelpRequest {
    type V = HelpRequestModel;

    open spec fn view(&self) -> HelpRequestModel {
        HelpRequestModel {
            description: self.description@,
            link: self.link@,
            attribution: self.attribution@,
            timestamp: self.timestamp as int,
        }
    }
}

impl HelpRequest {
    /// A decoded record never carries the zero timestamp that marks an
    /// unusable entry.
    pub open spec fn wf(&self) -> bool {
        self.timestamp != 0
    }
}

/// The four persisted fields of a request with the given content.
pub open spec fn spec_encode_fields(
    description: Seq<char>,
    link: Seq<char>,
    attribution: Seq<char>,
    timestamp: int,
) -> Seq<Seq<char>> {
    seq![description, link, attribution, spec_render_i64(timestamp)]
}

/// What a persisted record means: exactly four fields, the last a non-zero
/// decimal timestamp; anything else is unusable.
pub open spec fn spec_decode_fields(fields: Seq<Seq<char>>) -> Option<HelpRequestModel> {
    if fields.len() == 4 {
        match spec_parse_i64(fields[3]) {
            Some(t) => if t != 0 {
                Some(
                    HelpRequestModel {
                        description: fields[0],
                        link: fields[1],
                        attribution: fields[2],
                        timestamp: t as int,
                    },
                )
            } else {
                None
            },
            None => None,
        }
    } else {
        None
    }
}

/// Encodes a request for the store.
pub fn encode_record(request: &HelpRequest) -> (r: Vec<String>)
    ensures
        r.deep_view() == spec_encode_fields(
            request.description@,
            request.link@,
            request.attribution@,
            request.timestamp as int,
        ),
{
    let mut fields: Vec<String> = Vec::new();
    fields.push(request.description.clone());
    fields.push(request.link.clone());
    fields.push(request.attribution.clone());
    fields.push(i64_to_string(request.timestamp));
    proof {
        assert(fields.deep_view() =~= spec_encode_fields(
            request.description@,
            request.link@,
            request.attribution@,
            request.timestamp as int,
        ));
    }
    fields
}

/// Decodes a persisted record, exactly as `spec_decode_fields` says: the
/// record is returned if and only if it has the expected shape, and each
/// failure names its reason.
pub fn decode_record(fields: &Vec<String>) -> (r: Result<HelpRequest, DecodeError>)
    ensures
        match r {
            Ok(request) => spec_decode_fields(fields.deep_view()) == Some(request@)
                && request.wf(),
            Err(e) => spec_decode_fields(fields.deep_view()) is None && (e
                == DecodeError::WrongShape <==> fields.deep_view().len() != 4),
        },
{
    if fields.len() != 4 {
        return Err(DecodeError::WrongShape);
    }
    let timestamp = match parse_i64(fields[3].as_str()) {
        Some(t) => t,
        None => {
            return Err(DecodeError::BadTimestamp);
        },
    };
    if timestamp == 0 {
        return Err(DecodeError::BadTimestamp);
    }
    Ok(
        HelpRequest {
            description: fields[0].clone(),
            link: fields[1].clone(),
            attribution: fields[2].clone(),
            timestamp,
        },
    )
}

/// Encoding a request with a non-zero timestamp and decoding it back gives
/// the request again.
pub proof fn lemma_record_round_trip(
    description: Seq<char>,
    link: Seq<char>,
    attribution: Seq<char>,
    timestamp: i64,
)
    requires
        timestamp != 0,
    ensures
        spec_decode_fields(
            spec_encode_fields(description, link, attribution, timestamp as int),
        ) == Some(
            HelpRequestModel { description, link, attribution, timestamp: timestamp as int },
        ),
{
    lemma_render_parse_i64(timestamp);
}

} // verus!
