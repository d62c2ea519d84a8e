//! The CLIP text encoder: what is sent to it for a tag, and what its replies mean.
//!
//! The encoder itself is elsewhere. A request goes out as `clip_request` says;
//! `after_send` and `after_body` take what came back, step by step, until there is
//! an embedding or an error.

use crate::embedding::{
    all_numerals, law_vector_parts, law_vector_validity, lemma_numerals_without_commas,
    valid_embedding, vector, vector_literal,
};
use crate::error::{ErrorView, ImageAnalysisError};
use crate::json::{
    Member, MemberView, document_member, json_escaped, json_object, json_string, member_view,
    nested_text, number_items, number_list, read_member, read_numbers, texts_result,
};
use crate::text::{
    chars_of, decimal, decimal_text, decimal_value, join, law_decimal, optional_text, split,
    string_of, texts, trim_end_char,
};
use vstd::prelude::*;
use vstd::utf8::encode_utf8;

verus! {

/// Where the encoder is, which model it is to use, and how many seconds it has.
#[derive(Debug, PartialEq, Eq)]
pub struct ClipConfig {
    pub url: String,
    pub model_name: String,
    pub timeout: u64,
}

/// A form that is posted to the encoder: its parts `entries` and `text`.
#[derive(Debug, PartialEq, Eq)]
pub struct ClipRequest {
    pub url: String,
    pub entries: String,
    pub text: String,
    /// How many seconds there are for the reply.
    pub timeout: u64,
}

/// What came of a request to the encoder.
#[derive(Debug, PartialEq, Eq)]
pub enum SendReply {
    /// There was no reply in time.
    TimedOut,
    /// The request failed, with this text.
    Failed { error: String },
    /// There is a reply, with this status.
    Answered { status: u16 },
}

/// What follows a request to the encoder.
#[derive(Debug, PartialEq, Eq)]
pub enum ClipStep {
    /// The body of the reply holds the embedding.
    ReadBody,
    /// The body of the reply says what went wrong.
    ReadErrorText { status: u16 },
    /// There is no embedding.
    Failed { error: ImageAnalysisError },
}

/// A step with its texts as sequences of characters.
pub enum ClipStepView {
    ReadBody,
    ReadErrorText { status: u16 },
    Failed { error: ErrorView },
}

impl View for ClipStep {
    type V = ClipStepView;

    open spec fn view(&self) -> ClipStepView {
        match self {
            ClipStep::ReadBody => ClipStepView::ReadBody,
            ClipStep::ReadErrorText { status } => ClipStepView::ReadErrorText { status: *status },
            ClipStep::Failed { error } => ClipStepView::Failed { error: error@ },
        }
    }
}

/// Where the member of a reply is to be read.
#[derive(Debug, PartialEq, Eq)]
pub enum MemberReading {
    /// The numbers are in this text, which is JSON again.
    Encoded { text: String },
    /// These are the numbers.
    Numbers { numbers: Vec<String> },
    /// There are none.
    Failed { error: ImageAnalysisError },
}

/// A reading with its texts as sequences of characters.
pub enum ReadingView {
    Encoded { text: Seq<char> },
    Numbers { numbers: Seq<Seq<char>> },
    Failed { error: ErrorView },
}

impl View for MemberReading {
    type V = ReadingView;

    open spec fn view(&self) -> ReadingView {
        match self {
            MemberReading::Encoded { text } => ReadingView::Encoded { text: text@ },
            MemberReading::Numbers { numbers } => ReadingView::Numbers {
                numbers: texts(numbers@),
            },
            MemberReading::Failed { error } => ReadingView::Failed { error: error@ },
        }
    }
}

/// A failure of the encoding, with its text.
pub open spec fn clip_error(error: Seq<char>) -> ErrorView {
    ErrorView::ClipEncodingError { error }
}

/// Where tags are sent: `/predict` below the address, whatever slashes it ends in.
pub open spec fn predict_url(url: Seq<char>) -> Seq<char> {
    trim_end_char(url, '/') + "/predict"@
}

/// What the encoder is asked for: the text embedding of a model.
pub open spec fn clip_entries(model_name: Seq<char>) -> Seq<char> {
    json_object(
        "clip"@,
        json_object("textual"@, json_object("modelName"@, json_string(model_name))),
    )
}

/// The step after a reply or the want of one.
pub open spec fn send_step(reply: SendReply) -> ClipStepView {
    match reply {
        SendReply::TimedOut => ClipStepView::Failed {
            error: clip_error("CLIP encoding request timed out"@),
        },
        SendReply::Failed { error } => ClipStepView::Failed {
            error: clip_error("HTTP error: "@ + error@),
        },
        SendReply::Answered { status } => if 200 <= status < 300 {
            ClipStepView::ReadBody
        } else {
            ClipStepView::ReadErrorText { status }
        },
    }
}

/// Every item is a number.
pub open spec fn all_numbers(items: Seq<Option<Seq<char>>>) -> bool {
    forall|i: int| 0 <= i < items.len() ==> #[trigger] items[i] is Some
}

/// What the member `clip` of a reply says.
pub open spec fn member_reading(member: Option<MemberView>) -> ReadingView {
    match member {
        None => ReadingView::Failed {
            error: clip_error("Missing 'clip' field in ML response"@),
        },
        Some(MemberView::Text { text }) => ReadingView::Encoded { text },
        Some(MemberView::List { items }) => if all_numbers(items) {
            ReadingView::Numbers {
                numbers: items.map_values(|item: Option<Seq<char>>| item->0),
            }
        } else {
            ReadingView::Failed { error: clip_error("Non-numeric value in embedding array"@) }
        },
        Some(_) => ReadingView::Failed {
            error: clip_error("Unexpected type for 'clip' field in ML response"@),
        },
    }
}

/// The numbers of a text that is JSON again, or its failure.
pub open spec fn encoded_reading(parsed: Result<Seq<Seq<char>>, Seq<char>>) -> Result<
    Seq<Seq<char>>,
    ErrorView,
> {
    match parsed {
        Ok(numbers) => Ok(numbers),
        Err(error) => Err(clip_error("Failed to parse embedding string: "@ + error)),
    }
}

/// The numbers of an embedding in the member `clip` of a reply.
pub open spec fn member_numbers(member: Option<MemberView>) -> Result<Seq<Seq<char>>, ErrorView> {
    match member_reading(member) {
        ReadingView::Encoded { text } => encoded_reading(number_list(text)),
        ReadingView::Numbers { numbers } => Ok(numbers),
        ReadingView::Failed { error } => Err(error),
    }
}

/// The numbers of an embedding in the body of a reply. A body that is not JSON is
/// reported in the words that `reqwest` has for it.
pub open spec fn body_numbers(body: Seq<u8>) -> Result<Seq<Seq<char>>, ErrorView> {
    match document_member(body, "clip"@) {
        Err(_) => Err(
            clip_error("Failed to parse ML response: "@ + "error decoding response body"@),
        ),
        Ok(member) => member_numbers(member),
    }
}

/// The pgvector literal of some numbers, or the failure to get them.
pub open spec fn embedding_result(numbers: Result<Seq<Seq<char>>, ErrorView>) -> Result<
    Seq<char>,
    ErrorView,
> {
    match numbers {
        Ok(numbers) => Ok(vector(numbers)),
        Err(error) => Err(error),
    }
}

/// The error for a reply that is no success.
pub open spec fn status_error(status: u16, body: Seq<char>) -> ErrorView {
    clip_error("HTTP "@ + decimal(status as nat) + " from ML container: "@ + body)
}

/// What comes of the body of a successful reply, or of the failure to read it.
pub open spec fn body_result(body: Result<Seq<u8>, Seq<char>>) -> Result<Seq<char>, ErrorView> {
    match body {
        Ok(bytes) => embedding_result(body_numbers(bytes)),
        Err(error) => Err(clip_error("Failed to parse ML response: "@ + error)),
    }
}

/// The bytes of a body, or the text of the failure to read it.
pub open spec fn body_reply(body: Result<Vec<u8>, String>) -> Result<Seq<u8>, Seq<char>> {
    match body {
        Ok(bytes) => Ok(bytes@),
        Err(error) => Err(error@),
    }
}

/// The texts of a list of strings, or a failure.
pub open spec fn numbers_result(r: Result<Vec<String>, ImageAnalysisError>) -> Result<
    Seq<Seq<char>>,
    ErrorView,
> {
    match r {
        Ok(list) => Ok(texts(list@)),
        Err(e) => Err(e@),
    }
}

/// A text, or a failure.
pub open spec fn text_result(r: Result<String, ImageAnalysisError>) -> Result<
    Seq<char>,
    ErrorView,
> {
    match r {
        Ok(s) => Ok(s@),
        Err(e) => Err(e@),
    }
}

fn predict_url_of(url: &str) -> (s: String)
    ensures
        s@ == predict_url(url@),
{
    let v = chars_of(url);
    let mut end: usize = v.len();
    assert(v@.subrange(0, end as int) == url@);
    while end > 0 && v[end - 1] == '/'
        invariant
            end <= v@.len(),
            trim_end_char(url@, '/') == trim_end_char(v@.subrange(0, end as int), '/'),
        ensures
            end > 0 ==> v@[end - 1] != '/',
        decreases end,
    {
        assert(v@.subrange(0, end as int).drop_last() == v@.subrange(0, end - 1));
        end -= 1;
    }
    let mut s = string_of(&v, 0, end);
    s.append("/predict");
    s
}

/// The request that has the encoder embed `text`.
pub fn clip_request(config: &ClipConfig, text: &str) -> (r: ClipRequest)
    ensures
        r.url@ == predict_url(config.url@),
        r.entries@ == clip_entries(config.model_name@),
        r.text@ == text@,
        r.timeout == config.timeout,
{
    ClipRequest {
        url: predict_url_of(config.url.as_str()),
        entries: nested_text("clip", "textual", "modelName", config.model_name.as_str()),
        text: text.to_owned(),
        timeout: config.timeout,
    }
}

fn clip_failure(prefix: &str, error: &str) -> (e: ImageAnalysisError)
    ensures
        e@ == clip_error(prefix@ + error@),
{
    let mut s = prefix.to_owned();
    s.append(error);
    ImageAnalysisError::ClipEncodingError { error: s }
}

fn clip_failure_text(text: &str) -> (e: ImageAnalysisError)
    ensures
        e@ == clip_error(text@),
{
    ImageAnalysisError::ClipEncodingError { error: text.to_owned() }
}

/// The body is read where the reply is a success; otherwise it says what is wrong.
pub fn after_send(reply: SendReply) -> (step: ClipStep)
    ensures
        step@ == send_step(reply),
{
    match reply {
        SendReply::TimedOut => ClipStep::Failed {
            error: clip_failure_text("CLIP encoding request timed out"),
        },
        SendReply::Failed { error } => ClipStep::Failed {
            error: clip_failure("HTTP error: ", error.as_str()),
        },
        SendReply::Answered { status } => {
            if 200 <= status && status < 300 {
                ClipStep::ReadBody
            } else {
                ClipStep::ReadErrorText { status }
            }
        },
    }
}

/// The error for a reply that is no success.
pub fn after_error_text(status: u16, body: &str) -> (e: ImageAnalysisError)
    ensures
        e@ == status_error(status, body@),
{
    let mut s = "HTTP ".to_owned();
    s.append(decimal_text(status as u64).as_str());
    s.append(" from ML container: ");
    s.append(body);
    ImageAnalysisError::ClipEncodingError { error: s }
}

/// What the member `clip` of a reply says. The encoder writes the embedding as a
/// string that holds an array; an array itself is taken too.
pub fn read_clip_member(member: Option<Member>) -> (r: MemberReading)
    ensures
        r@ == member_reading(member_view(member)),
{
    match member {
        None => MemberReading::Failed {
            error: clip_failure_text("Missing 'clip' field in ML response"),
        },
        Some(Member::Text { text }) => MemberReading::Encoded { text },
        Some(Member::List { items }) => {
            let ghost views = items@.map_values(|item: Option<String>| optional_text(item));
            let mut numbers: Vec<String> = Vec::new();
            for i in 0..items.len()
                invariant
                    views == items@.map_values(|item: Option<String>| optional_text(item)),
                    member_view(member) == Some(MemberView::List { items: views }),
                    numbers@.len() == i,
                    forall|k: int| 0 <= k < i ==> #[trigger] views[k] == Some(numbers@[k]@),
            {
                match &items[i] {
                    Some(number) => {
                        numbers.push(number.clone());
                        assert(views[i as int] == Some(number@));
                    },
                    None => {
                        assert(views[i as int] is None);
                        return MemberReading::Failed {
                            error: clip_failure_text("Non-numeric value in embedding array"),
                        };
                    },
                }
            }
            assert(texts(numbers@) == views.map_values(|item: Option<Seq<char>>| item->0));
            MemberReading::Numbers { numbers }
        },
        Some(Member::Null) | Some(Member::Bool) | Some(Member::Number) | Some(
            Member::Object,
        ) => MemberReading::Failed {
            error: clip_failure_text("Unexpected type for 'clip' field in ML response"),
        },
    }
}

/// The numbers of a text that is JSON again, given what came of parsing it.
pub fn read_encoded(parsed: Result<Vec<String>, String>) -> (r: Result<
    Vec<String>,
    ImageAnalysisError,
>)
    ensures
        numbers_result(r) == encoded_reading(texts_result(parsed)),
{
    match parsed {
        Ok(numbers) => Ok(numbers),
        Err(error) => Err(clip_failure("Failed to parse embedding string: ", error.as_str())),
    }
}

/// The numbers of an embedding in the body of a reply. An object with the embedding
/// as a string and one with the same embedding as an array give the same numbers.
pub fn decode_body(body: &[u8]) -> (r: Result<Vec<String>, ImageAnalysisError>)
    ensures
        numbers_result(r) == body_numbers(body@),
        forall|text: Seq<char>|
            body@ == #[trigger] encode_utf8(json_object("clip"@, json_string(text)))
                ==> numbers_result(r) == encoded_reading(number_list(text)),
        forall|text: Seq<char>|
            body@ == #[trigger] encode_utf8(json_object("clip"@, text)) && number_list(text) is Ok
                ==> numbers_result(r) == encoded_reading(number_list(text)),
{
    proof {
        assert forall|numbers: Seq<Seq<char>>|
            member_numbers(Some(#[trigger] number_items(numbers))) == Ok::<
                Seq<Seq<char>>,
                ErrorView,
            >(numbers) by {
            let items = numbers.map_values(|number: Seq<char>| Some(number));
            assert(items.map_values(|item: Option<Seq<char>>| item->0) == numbers);
        }
    }
    match read_member(body, "clip") {
        Err(_) => Err(clip_failure("Failed to parse ML response: ", "error decoding response body")),
        Ok(member) => match read_clip_member(member) {
            MemberReading::Encoded { text } => read_encoded(read_numbers(text.as_str())),
            MemberReading::Numbers { numbers } => Ok(numbers),
            MemberReading::Failed { error } => Err(error),
        },
    }
}

/// The embedding as a pgvector literal, given the body of a successful reply or
/// the text of the failure to read it.
pub fn after_body(body: Result<Vec<u8>, String>) -> (r: Result<String, ImageAnalysisError>)
    ensures
        text_result(r) == body_result(body_reply(body)),
{
    match body {
        Ok(bytes) => match decode_body(bytes.as_slice()) {
            Ok(numbers) => Ok(vector_literal(&numbers)),
            Err(error) => Err(error),
        },
        Err(error) => Err(clip_failure("Failed to parse ML response: ", error.as_str())),
    }
}

/// What comes of the encoding of a text, given how the request is answered, what
/// the reply says where it is no success, and its body where it is one.
pub open spec fn encoding_run(
    reply: SendReply,
    error_text: Seq<char>,
    body: Result<Seq<u8>, Seq<char>>,
) -> Result<Seq<char>, ErrorView> {
    match send_step(reply) {
        ClipStepView::ReadBody => body_result(body),
        ClipStepView::ReadErrorText { status } => Err(status_error(status, error_text)),
        ClipStepView::Failed { error } => Err(error),
    }
}

/// A text has an embedding exactly when the encoder answers in time with success
/// and its body can be read and holds the numbers; they are what the embedding is
/// made of. Every failure is one of the encoding.
pub proof fn law_encoding_run(
    reply: SendReply,
    error_text: Seq<char>,
    body: Result<Seq<u8>, Seq<char>>,
)
    ensures
        ({
            let outcome = encoding_run(reply, error_text, body);
            let success = reply matches SendReply::Answered { status } && 200 <= status < 300;
            &&& outcome is Ok <==> success && body is Ok && body_numbers(body->Ok_0) is Ok
            &&& outcome is Ok ==> outcome->Ok_0 == vector(body_numbers(body->Ok_0)->Ok_0)
            &&& outcome is Err ==> outcome->Err_0 is ClipEncodingError
        }),
{
}

/// The embedding of a text is valid where the encoder gives one number or more and
/// each of them is written as a number.
pub proof fn law_encoding_is_valid(
    reply: SendReply,
    error_text: Seq<char>,
    body: Result<Seq<u8>, Seq<char>>,
)
    requires
        encoding_run(reply, error_text, body) is Ok,
        body_numbers(body->Ok_0)->Ok_0.len() > 0,
        all_numerals(body_numbers(body->Ok_0)->Ok_0),
    ensures
        valid_embedding(encoding_run(reply, error_text, body)->Ok_0),
        split(
            encoding_run(reply, error_text, body)->Ok_0.subrange(
                1,
                encoding_run(reply, error_text, body)->Ok_0.len() - 1,
            ),
            ',',
        ) == body_numbers(body->Ok_0)->Ok_0,
{
    let numbers = body_numbers(body->Ok_0)->Ok_0;
    law_vector_validity(numbers);
    lemma_numerals_without_commas(numbers);
    law_vector_parts(numbers);
}

/// A slash more or less at the end of the encoder's address does not matter.
pub proof fn law_predict_url_slashes(url: Seq<char>)
    ensures
        predict_url(url.push('/')) == predict_url(url),
{
    assert(url.push('/').drop_last() == url);
}

/// An embedding in a string and the same numbers in an array are read alike.
pub proof fn law_both_forms_agree(text: Seq<char>, items: Seq<Option<Seq<char>>>)
    requires
        all_numbers(items),
        number_list(text) == Ok::<Seq<Seq<char>>, Seq<char>>(
            items.map_values(|item: Option<Seq<char>>| item->0),
        ),
    ensures
        member_numbers(Some(MemberView::Text { text })) == member_numbers(
            Some(MemberView::List { items }),
        ),
{
}

/// A request goes to the address followed by `/predict`, whatever slashes the address
/// ends in and whatever its length is.
pub proof fn law_predict_url(url: Seq<char>, slashes: nat)
    requires
        url.len() == 0 || url.last() != '/',
    ensures
        predict_url(url) == url + "/predict"@,
        predict_url(url + Seq::new(slashes, |i: int| '/')) == url + "/predict"@,
    decreases slashes,
{
    let ended = url + Seq::new(slashes, |i: int| '/');
    if slashes == 0 {
        assert(ended == url);
    } else {
        let fewer = (slashes - 1) as nat;
        law_predict_url(url, fewer);
        law_predict_url_slashes(url + Seq::new(fewer, |i: int| '/'));
        assert(ended == (url + Seq::new(fewer, |i: int| '/')).push('/'));
    }
}

proof fn lemma_plain_json(text: Seq<char>)
    requires
        forall|i: int|
            0 <= i < text.len() ==> ' ' <= #[trigger] text[i] && text[i] != '"' && text[i] != '\\',
    ensures
        json_escaped(text) == text,
    decreases text.len(),
{
    if text.len() > 0 {
        assert(text[text.len() - 1] == text.last());
        lemma_plain_json(text.drop_last());
        assert(text == text.drop_last() + seq![text.last()]);
    }
}

/// The encoder is asked for the text embedding of the model, whose name is a JSON string
/// with all of its characters.
pub proof fn law_clip_entries(model_name: Seq<char>)
    ensures
        clip_entries(model_name) == r#"{"clip":{"textual":{"modelName":"#@ + json_string(model_name)
            + "}}}"@,
{
    reveal_strlit(r#"{"clip":{"textual":{"modelName":"#);
    reveal_strlit("}}}");
    reveal_strlit("clip");
    reveal_strlit("textual");
    reveal_strlit("modelName");
    lemma_plain_json("clip"@);
    lemma_plain_json("textual"@);
    lemma_plain_json("modelName"@);
}

/// The body of every reply with a status from 200 to 299 is read for the embedding, and
/// that of every other for what went wrong. Without a reply the request failed, with the
/// text of its error.
pub proof fn law_send_replies(status: u16, error: String)
    ensures
        200 <= status <= 299 ==> send_step(SendReply::Answered { status }) == ClipStepView::ReadBody,
        status < 200 || status > 299 ==> send_step(SendReply::Answered { status })
            == (ClipStepView::ReadErrorText { status }),
        send_step(SendReply::TimedOut) == (ClipStepView::Failed {
            error: ErrorView::ClipEncodingError { error: "CLIP encoding request timed out"@ },
        }),
        send_step(SendReply::Failed { error }) == (ClipStepView::Failed {
            error: ErrorView::ClipEncodingError { error: "HTTP error: "@ + error@ },
        }),
{
}

/// The error for a reply that is no success holds the status in digits and the whole text
/// of the reply.
pub proof fn law_status_error(status: u16, body: Seq<char>) -> (digits: Seq<char>)
    ensures
        status_error(status, body) == (ErrorView::ClipEncodingError {
            error: "HTTP "@ + digits + " from ML container: "@ + body,
        }),
        decimal_value(digits) == status,
        forall|i: int|
            0 <= i < digits.len() ==> '0' <= #[trigger] digits[i] && digits[i] <= '9',
        digits.len() > 0,
        digits.len() > 1 ==> digits[0] != '0',
{
    law_decimal(status as nat);
    decimal(status as nat)
}

/// A member `clip` that is a text is read as the list of numbers that the text parses as:
/// exactly those numbers, each unchanged and in its place, however many there are. Where
/// it does not parse, the error holds why.
pub proof fn law_numbers_of_a_text(body: Seq<u8>, text: Seq<char>)
    ensures
        number_list(text) matches Ok(numbers) ==> member_numbers(Some(MemberView::Text { text }))
            == Ok::<Seq<Seq<char>>, ErrorView>(numbers),
        number_list(text) matches Err(error) ==> member_numbers(Some(MemberView::Text { text }))
            == Err::<Seq<Seq<char>>, ErrorView>(
            ErrorView::ClipEncodingError { error: "Failed to parse embedding string: "@ + error },
        ),
        document_member(body, "clip"@) == Ok::<Option<MemberView>, ()>(
            Some(MemberView::Text { text }),
        ) ==> match number_list(text) {
            Ok(numbers) => body_numbers(body) == Ok::<Seq<Seq<char>>, ErrorView>(numbers),
            Err(error) => body_numbers(body) == Err::<Seq<Seq<char>>, ErrorView>(
                ErrorView::ClipEncodingError {
                    error: "Failed to parse embedding string: "@ + error,
                },
            ),
        },
{
}

/// A member `clip` that is an array of numbers is read as exactly those numbers, each
/// unchanged and in its place, however many there are.
pub proof fn law_numbers_of_an_array(
    body: Seq<u8>,
    items: Seq<Option<Seq<char>>>,
    numbers: Seq<Seq<char>>,
)
    requires
        items.len() == numbers.len(),
        forall|i: int| 0 <= i < items.len() ==> #[trigger] items[i] == Some(numbers[i]),
    ensures
        member_reading(Some(MemberView::List { items })) == (ReadingView::Numbers { numbers }),
        member_numbers(Some(MemberView::List { items })) == Ok::<Seq<Seq<char>>, ErrorView>(
            numbers,
        ),
        document_member(body, "clip"@) == Ok::<Option<MemberView>, ()>(
            Some(MemberView::List { items }),
        ) ==> body_numbers(body) == Ok::<Seq<Seq<char>>, ErrorView>(numbers),
{
    assert(items.map_values(|item: Option<Seq<char>>| item->0) == numbers);
}

/// A member `clip` that is neither a text nor an array of numbers is an error, and so are
/// the want of it and a body that is not JSON.
pub proof fn law_replies_without_numbers(body: Seq<u8>, items: Seq<Option<Seq<char>>>, i: int)
    requires
        0 <= i < items.len(),
        items[i] is None,
    ensures
        member_numbers(None) == Err::<Seq<Seq<char>>, ErrorView>(
            ErrorView::ClipEncodingError { error: "Missing 'clip' field in ML response"@ },
        ),
        member_numbers(Some(MemberView::List { items })) == Err::<Seq<Seq<char>>, ErrorView>(
            ErrorView::ClipEncodingError { error: "Non-numeric value in embedding array"@ },
        ),
        forall|member: MemberView|
            member !is Text && member !is List ==> #[trigger] member_numbers(Some(member)) == Err::<
                Seq<Seq<char>>,
                ErrorView,
            >(
                ErrorView::ClipEncodingError {
                    error: "Unexpected type for 'clip' field in ML response"@,
                },
            ),
        document_member(body, "clip"@) matches Ok(member) ==> body_numbers(body) == member_numbers(
            member,
        ),
        document_member(body, "clip"@) is Err ==> body_numbers(body) == Err::<
            Seq<Seq<char>>,
            ErrorView,
        >(
            ErrorView::ClipEncodingError {
                error: "Failed to parse ML response: "@ + "error decoding response body"@,
            },
        ),
{
}

/// The embedding of a body is the bracketed list of its numbers: it has as many pieces
/// between its commas as there are numbers, and they are those numbers in their order. A
/// failure to get the numbers, or to read the body, keeps its text.
pub proof fn law_embedding_of_a_body(body: Seq<u8>, error: Seq<char>)
    ensures
        body_result(Err(error)) == Err::<Seq<char>, ErrorView>(
            ErrorView::ClipEncodingError { error: "Failed to parse ML response: "@ + error },
        ),
        body_numbers(body) matches Err(failure) ==> body_result(Ok(body)) == Err::<
            Seq<char>,
            ErrorView,
        >(failure),
        body_numbers(body) matches Ok(numbers) ==> {
            &&& body_result(Ok(body)) == Ok::<Seq<char>, ErrorView>(
                seq!['['] + join(numbers, seq![',']) + seq![']'],
            )
            &&& numbers.len() > 0 && (forall|i: int|
                0 <= i < numbers.len() ==> !(#[trigger] numbers[i]).contains(',')) ==> {
                let literal = body_result(Ok(body))->Ok_0;
                split(literal.subrange(1, literal.len() - 1), ',') == numbers
            }
        },
{
    if let Ok(numbers) = body_numbers(body) {
        if numbers.len() > 0 && forall|i: int|
            0 <= i < numbers.len() ==> !(#[trigger] numbers[i]).contains(',') {
            law_vector_parts(numbers);
        }
    }
}

/// Numbers and texts that are read pass on as they are, and so do their failures.
pub proof fn law_reading_views(
    list: Vec<String>,
    bytes: Vec<u8>,
    text: String,
    failure: ImageAnalysisError,
    numbers: Seq<Seq<char>>,
    error: Seq<char>,
    status: u16,
)
    ensures
        numbers_result(Ok(list)) == Ok::<Seq<Seq<char>>, ErrorView>(texts(list@)),
        numbers_result(Err(failure)) == Err::<Seq<Seq<char>>, ErrorView>(failure@),
        texts_result(Ok(list)) == Ok::<Seq<Seq<char>>, Seq<char>>(texts(list@)),
        texts_result(Err(text)) == Err::<Seq<Seq<char>>, Seq<char>>(text@),
        text_result(Ok(text)) == Ok::<Seq<char>, ErrorView>(text@),
        text_result(Err(failure)) == Err::<Seq<char>, ErrorView>(failure@),
        body_reply(Ok(bytes)) == Ok::<Seq<u8>, Seq<char>>(bytes@),
        body_reply(Err(text)) == Err::<Seq<u8>, Seq<char>>(text@),
        encoded_reading(Ok(numbers)) == Ok::<Seq<Seq<char>>, ErrorView>(numbers),
        encoded_reading(Err(error)) == Err::<Seq<Seq<char>>, ErrorView>(
            ErrorView::ClipEncodingError { error: "Failed to parse embedding string: "@ + error },
        ),
        (MemberReading::Encoded { text })@ == (ReadingView::Encoded { text: text@ }),
        (MemberReading::Numbers { numbers: list })@ == (ReadingView::Numbers {
            numbers: texts(list@),
        }),
        (MemberReading::Failed { error: failure })@ == (ReadingView::Failed { error: failure@ }),
        ClipStep::ReadBody@ == ClipStepView::ReadBody,
        (ClipStep::Failed { error: failure })@ == (ClipStepView::Failed { error: failure@ }),
        (ClipStep::ReadErrorText { status })@ == (ClipStepView::ReadErrorText { status }),
{
}

/// A member holds the text of its string, and of each item of its array the number, where
/// it is one; a member that is one of these leads to the reading of its kind.
pub proof fn law_member_views(text: String, items: Vec<Option<String>>, member: Member)
    ensures
        member_view(None) is None,
        member_view(Some(member)) == Some(member@),
        (Member::Text { text })@ == (MemberView::Text { text: text@ }),
        (Member::List { items })@ is List,
        (Member::List { items })@->items.len() == items@.len(),
        forall|i: int|
            0 <= i < items@.len() ==> #[trigger] (Member::List { items })@->items[i] == (
            match items@[i] {
                Some(number) => Some(number@),
                None => None,
            }),
        Member::Null@ == MemberView::Null,
        Member::Bool@ == MemberView::Bool,
        Member::Number@ == MemberView::Number,
        Member::Object@ == MemberView::Object,
        member_reading(Some(MemberView::Text { text: text@ })) == (ReadingView::Encoded {
            text: text@,
        }),
{
}

} // verus!
