//! The conversation summaries that the Antigravity IDE keeps in its state
//! database: titles from transcripts, metadata from stored protobuf blobs,
//! and the base64 protobuf payload that lists them.
use vstd::prelude::*;
use vstd::utf8::*;
use vstd::string::StringSliceAdditionalSpecFns;
use crate::encoding::{base64_text, base64_len_fits, encode_base64, uuid_v5, uuid_v5_dns, uuid_v5_oid, namespace_dns, namespace_oid};
use crate::proto::{
    law_ws_repo_roundtrip, ws_repo_bytes, first_bytes,
    ProtoFields, ProtoFieldsExt, parse_proto, message_fields, fields_view, field_first_bytes,
    encode_field_bytes, encode_field_varint, make_timestamp, make_ws_info, bytes_field_bytes,
    varint_field_bytes, timestamp_bytes, ws_info_bytes, WireItem,
};
use crate::rebuild::opt_text;
use crate::text::{lines_of, text_lines, lemma_find_first, lemma_trim_keeps_piece, trim_start, trim_end, occurs_at, chars_of, string_of, trim, trim_chars, find, find_chars, skip_chars, take_chars, utf8_lossy};

verus! {

//=========================================#
//            INPUTS                       #
//=========================================#

/// A transcript line that parsed as JSON: its `type` and `content` strings.
#[derive(Debug, Clone)]
pub struct TranscriptLine {
    pub kind: Option<String>,
    pub content: Option<String>,
}

/// What is known of one conversation: its id, the modification time of its
/// database in whole seconds since the epoch, the metadata blob stored in it
/// (when it could be read), and the text of its JSON-lines transcript (when
/// the transcript could be read).
#[derive(Debug, Clone)]
pub struct ConversationRecord {
    pub cid: String,
    pub mtime_secs: u64,
    pub blob: Option<Vec<u8>>,
    pub transcript: Option<String>,
}

/// The `type` and `content` strings of a transcript line.
pub type LineView = (Option<Seq<char>>, Option<Seq<char>>);

/// The value of a transcript line.
pub open spec fn line_view(l: TranscriptLine) -> LineView {
    (opt_text(l.kind), opt_text(l.content))
}

//=========================================#
//            TITLES                       #
//=========================================#

/// The text of a user input that a title is taken from: what stands between
/// the first `<USER_REQUEST>` and the next `</USER_REQUEST>` (or the next
/// `<USER_REQUEST>`) when the content holds both tags, else the whole
/// content; trimmed.
pub open spec fn request_text(c: Seq<char>) -> Seq<char> {
    let open = "<USER_REQUEST>"@;
    let close = "</USER_REQUEST>"@;
    match (find(c, open), find(c, close)) {
        (Some(a), Some(_)) => {
            let after = c.skip(a + open.len());
            let part = match find(after, open) {
                Some(b) => after.take(b),
                None => after,
            };
            let inner = match find(part, close) {
                Some(e) => part.take(e),
                None => part,
            };
            trim(inner)
        },
        _ => trim(c),
    }
}

/// The first line of `t`, trimmed.
pub open spec fn first_line(t: Seq<char>) -> Seq<char> {
    match find(t, seq!['\n']) {
        Some(k) => trim(t.take(k)),
        None => trim(t),
    }
}

/// At most the first 60 characters of `t`.
pub open spec fn at_most_60(t: Seq<char>) -> Seq<char> {
    if t.len() <= 60 {
        t
    } else {
        t.take(60)
    }
}

/// The title that a user input gives: the first line of its request text,
/// cut to 60 characters; none when that is empty.
pub open spec fn title_from_content(c: Seq<char>) -> Option<Seq<char>> {
    let t = at_most_60(first_line(request_text(c)));
    if t.len() > 0 {
        Some(t)
    } else {
        None
    }
}

/// The first line of a text holds no line break.
proof fn lemma_first_line_has_no_break(t: Seq<char>)
    ensures
        !first_line(t).contains('\n'),
{
    let nl = seq!['\n'];
    lemma_find_first(t, nl, 0);
    let piece = match find(t, nl) {
        Some(k) => t.take(k),
        None => t,
    };
    crate::text::lemma_find_occurs(t, nl, 0);
    assert forall|j: int| 0 <= j < piece.len() implies piece[j] != '\n' by {
        if piece[j] == '\n' {
            assert(t.subrange(j, j + 1) =~= nl);
            assert(occurs_at(t, nl, j));
        }
    }
    lemma_trim_keeps_piece(piece);
    lemma_trim_keeps_piece(trim_start(piece));
    let ts = trim_start(piece);
    let r = trim_end(ts);
    assert forall|j: int| 0 <= j < r.len() implies r[j] != '\n' by {
        assert(r[j] == ts[j]);
        assert(ts[j] == piece[piece.len() - ts.len() + j]);
    }
}

/// A title is one short line: never empty, at most 60 characters, and
/// without a line break.
pub proof fn law_title_is_one_short_line(content: Seq<char>)
    ensures
        title_from_content(content) matches Some(t) ==> 0 < t.len() <= 60 && !t.contains('\n'),
{
    let line = first_line(request_text(content));
    lemma_first_line_has_no_break(request_text(content));
    let t = at_most_60(line);
    assert forall|j: int| 0 <= j < t.len() implies t[j] != '\n' by {
        assert(t[j] == line[j]);
    }
}

/// Whether a transcript line is a user input.
pub open spec fn is_user_input(l: LineView) -> bool {
    match l.0 {
        Some(k) => k == "USER_INPUT"@,
        None => false,
    }
}

/// The text of an optional content, empty when missing.
pub open spec fn content_or_empty(o: Option<Seq<char>>) -> Seq<char> {
    match o {
        Some(c) => c,
        None => seq![],
    }
}

/// The title that a transcript gives: that of its first user input (none if
/// that input gives none, or if there is no user input).
pub open spec fn transcript_title(lines: Seq<LineView>) -> Option<Seq<char>>
    decreases lines.len(),
{
    if lines.len() == 0 {
        None
    } else if is_user_input(lines[0]) {
        title_from_content(content_or_empty(lines[0].1))
    } else {
        transcript_title(lines.drop_first())
    }
}

/// What `serde_json` reads from one line of text: none when the line is not
/// JSON; else the `type` and `content` members, each none when the value has
/// no such member or it is not a string.
pub uninterp spec fn json_type_content(line: Seq<char>) -> Option<LineView>;

/// Reads one transcript line with `serde_json::from_str` into a
/// `serde_json::Value`, then its `type` and `content` members with
/// `Value::get` and `Value::as_str`. Trusted: the result is what those calls
/// give, a function of the line alone. JSON's grammar is not stated here.
#[verifier::external_body]
fn parse_transcript_line(line: &str) -> (r: Option<TranscriptLine>)
    ensures
        match r {
            Some(l) => json_type_content(line@) == Some(line_view(l)),
            None => json_type_content(line@) is None,
        },
{
    match serde_json::from_str::<serde_json::Value>(line) {
        Ok(v) => Some(TranscriptLine {
            kind: v.get("type").and_then(|x| x.as_str()).map(|x| x.to_string()),
            content: v.get("content").and_then(|x| x.as_str()).map(|x| x.to_string()),
        }),
        Err(_) => None,
    }
}

/// The lines of a transcript that are JSON, as read, in order.
pub open spec fn parsed_transcript(lines: Seq<Seq<char>>) -> Seq<LineView>
    decreases lines.len(),
{
    if lines.len() == 0 {
        seq![]
    } else {
        let rest = parsed_transcript(lines.drop_last());
        match json_type_content(lines.last()) {
            Some(v) => rest.push(v),
            None => rest,
        }
    }
}

/// The lines of a transcript's text that are JSON, read into their `type`
/// and `content` strings; lines that are not JSON are left out.
pub fn read_transcript(text: &str) -> (r: Vec<TranscriptLine>)
    ensures
        r@.map_values(|l: TranscriptLine| line_view(l)) == parsed_transcript(text_lines(text@)),
{
    let cs = chars_of(text);
    let lines = lines_of(cs.as_slice());
    let ghost all = lines@.map_values(|v: Vec<char>| v@);
    let mut out: Vec<TranscriptLine> = Vec::new();
    let mut i: usize = 0;
    while i < lines.len()
        invariant
            i <= lines.len(),
            all == lines@.map_values(|v: Vec<char>| v@),
            all == text_lines(text@),
            out@.map_values(|l: TranscriptLine| line_view(l)) == parsed_transcript(all.take(i as int)),
        decreases lines.len() - i,
    {
        let line = string_of(lines[i].as_slice());
        let parsed = parse_transcript_line(line.as_str());
        proof {
            assert(all.take(i + 1).drop_last() =~= all.take(i as int));
            assert(all.take(i + 1).last() == line@);
        }
        match parsed {
            Some(l) => {
                let ghost before = out@.map_values(|l: TranscriptLine| line_view(l));
                out.push(l);
                assert(out@.map_values(|l: TranscriptLine| line_view(l)) =~= before.push(
                    line_view(l),
                ));
            },
            None => {},
        }
        i = i + 1;
    }
    assert(all.take(lines.len() as int) =~= all);
    out
}

/// The title of a user input's content.
pub fn conversation_title(content: &str) -> (r: Option<String>)
    ensures
        match title_from_content(content@) {
            Some(t) => r matches Some(s) && s@ == t,
            None => r is None,
        },
{
    let c = chars_of(content);
    let open = chars_of("<USER_REQUEST>");
    let close = chars_of("</USER_REQUEST>");
    let c_len = c.len();
    let fa = find_chars(c.as_slice(), open.as_slice());
    let fb = find_chars(c.as_slice(), close.as_slice());
    let text: Vec<char> = match (fa, fb) {
        (Some(a), Some(_)) => {
            assert(occurs_at(c@, open@, a as int));
            let after = skip_chars(c.as_slice(), a + open.len());
            let part = match find_chars(after.as_slice(), open.as_slice()) {
                Some(b) => take_chars(after.as_slice(), b),
                None => after,
            };
            let inner = match find_chars(part.as_slice(), close.as_slice()) {
                Some(e) => take_chars(part.as_slice(), e),
                None => part,
            };
            trim_chars(inner.as_slice())
        },
        _ => trim_chars(c.as_slice()),
    };
    assert(text@ == request_text(content@));
    let mut nl: Vec<char> = Vec::new();
    nl.push('\n');
    assert(nl@ =~= seq!['\n']);
    let line = match find_chars(text.as_slice(), nl.as_slice()) {
        Some(k) => {
            let head = take_chars(text.as_slice(), k);
            assert(find(text@, seq!['\n']) == Some(k as int));
            trim_chars(head.as_slice())
        },
        None => {
            assert(find(text@, seq!['\n']) is None);
            trim_chars(text.as_slice())
        },
    };
    assert(line@ == first_line(text@));
    let cut = if line.len() <= 60 {
        line
    } else {
        take_chars(line.as_slice(), 60)
    };
    assert(cut@ == at_most_60(first_line(request_text(content@))));
    if cut.len() > 0 {
        Some(string_of(cut.as_slice()))
    } else {
        None
    }
}

/// The title that the read lines of a transcript give.
pub fn transcript_title_of(lines: &Vec<TranscriptLine>) -> (r: Option<String>)
    ensures
        match transcript_title(lines@.map_values(|l: TranscriptLine| line_view(l))) {
            Some(t) => r matches Some(s) && s@ == t,
            None => r is None,
        },
{
    let ghost views = lines@.map_values(|l: TranscriptLine| line_view(l));
    let mut i: usize = 0;
    assert(views.skip(0) =~= views);
    while i < lines.len()
        invariant
            i <= lines.len(),
            views == lines@.map_values(|l: TranscriptLine| line_view(l)),
            transcript_title(views) == transcript_title(views.skip(i as int)),
        decreases lines.len() - i,
    {
        assert(views.skip(i as int).drop_first() =~= views.skip(i + 1));
        let line = &lines[i];
        let user_input = match &line.kind {
            Some(k) => {
                let kc = chars_of(k.as_str());
                crate::text::eq_str(kc.as_slice(), "USER_INPUT")
            },
            None => false,
        };
        assert(views.skip(i as int)[0] == line_view(lines@[i as int]));
        if user_input {
            let content: &str = match &line.content {
                Some(c) => c.as_str(),
                None => "",
            };
            proof {
                reveal_strlit("");
            }
            assert(content@ == content_or_empty(line_view(lines@[i as int]).1));
            return conversation_title(content);
        }
        i = i + 1;
    }
    None
}

/// The first eight bytes of an id's UTF-8 encoding, as text (the whole id
/// when it is shorter).
pub open spec fn id_prefix(cid: Seq<char>) -> Seq<char> {
    if encode_utf8(cid).len() >= 8 {
        decode_utf8(encode_utf8(cid).take(8))
    } else {
        cid
    }
}

/// The title of a conversation with no title of its own.
pub open spec fn default_title(cid: Seq<char>) -> Seq<char> {
    "Conversation "@ + id_prefix(cid)
}

/// Whether the eighth byte of an id's encoding starts a character (or the
/// id is shorter than eight bytes), so that its first eight bytes are text.
pub open spec fn id_prefix_is_text(cid: Seq<char>) -> bool {
    encode_utf8(cid).len() < 8 || is_char_boundary(encode_utf8(cid), 8)
}

/// `Conversation <first eight bytes of the id>`.
pub fn default_conversation_title(cid: &str) -> (r: String)
    requires
        id_prefix_is_text(cid@),
    ensures
        r@ == default_title(cid@),
{
    let mut out = chars_of("Conversation ");
    let bytes = cid.as_bytes();
    if bytes.len() >= 8 {
        let (head, _) = cid.split_at(8);
        proof {
            encode_utf8_decode_utf8(head@);
            assert(head.spec_bytes() =~= encode_utf8(cid@).take(8));
        }
        let mut h = chars_of(head);
        assert(h@ == id_prefix(cid@));
        out.append(&mut h);
    } else {
        let mut h = chars_of(cid);
        assert(cid.spec_bytes() == encode_utf8(cid@));
        assert(h@ == id_prefix(cid@));
        out.append(&mut h);
    }
    string_of(out.as_slice())
}

/// The title that a conversation's transcript gives, if any.
pub open spec fn own_title(r: ConversationRecord) -> Option<Seq<char>> {
    match r.transcript {
        Some(text) => transcript_title(parsed_transcript(text_lines(text@))),
        None => None,
    }
}

/// The title of a conversation: that of its transcript, else the default.
pub open spec fn record_title(r: ConversationRecord) -> Seq<char> {
    match own_title(r) {
        Some(t) => t,
        None => default_title(r.cid@),
    }
}

/// Whether a conversation's title can be written: it has a title of its
/// own, or the first eight bytes of its id are text (the default title is
/// cut there).
pub open spec fn title_is_text(r: ConversationRecord) -> bool {
    own_title(r) is Some || id_prefix_is_text(r.cid@)
}

/// The title of a conversation, or `None` where it has no title of its own
/// and its id cannot be cut after eight bytes.
pub fn conversation_record_title(rec: &ConversationRecord) -> (r: Option<String>)
    ensures
        match r {
            Some(t) => title_is_text(*rec) && t@ == record_title(*rec),
            None => !title_is_text(*rec),
        },
{
    let own = match &rec.transcript {
        Some(text) => transcript_title_of(&read_transcript(text.as_str())),
        None => None,
    };
    assert(opt_text(own) == own_title(*rec));
    match own {
        Some(t) => Some(t),
        None => {
            let cid = rec.cid.as_str();
            let bytes = cid.as_bytes();
            if bytes.len() >= 8 && !cid.is_char_boundary(8) {
                None
            } else {
                Some(default_conversation_title(cid))
            }
        },
    }
}

//=========================================#
//            METADATA                     #
//=========================================#

/// Metadata of a conversation.
pub struct ConversationMeta {
    pub ws_bytes: Vec<u8>,
    pub created_ts_bytes: Vec<u8>,
    pub session_id: String,
    pub uri: String,
}

/// The fields of a stored metadata blob (none when there is no blob).
pub open spec fn blob_fields(blob: Option<Vec<u8>>) -> Map<u32, Seq<WireItem>> {
    match blob {
        Some(b) => message_fields(b@),
        None => Map::empty(),
    }
}

/// The workspace URI: field 7 of the blob as text, else `file:///etc/nixos`.
pub open spec fn meta_uri(m: Map<u32, Seq<WireItem>>) -> Seq<char> {
    match field_first_bytes(m, 7) {
        Some(b) => utf8_lossy(b),
        None => "file:///etc/nixos"@,
    }
}

/// The session id: field 3 of the blob as text, else the DNS-namespace UUID
/// of the conversation id.
pub open spec fn meta_session(m: Map<u32, Seq<WireItem>>, cid: Seq<char>) -> Seq<char> {
    match field_first_bytes(m, 3) {
        Some(b) => utf8_lossy(b),
        None => uuid_v5(namespace_dns(), encode_utf8(cid)),
    }
}

/// The workspace info: field 1 of the blob, else one made for the URI and
/// the default repository.
pub open spec fn meta_ws(m: Map<u32, Seq<WireItem>>) -> Seq<u8> {
    match field_first_bytes(m, 1) {
        Some(b) => b,
        None => ws_info_bytes(
            encode_utf8(meta_uri(m)),
            encode_utf8("Orbit-Nix/orbit-config"@),
            encode_utf8("git@github.com:Orbit-Nix/orbit-config.git"@),
            encode_utf8("main"@),
        ),
    }
}

/// The creation timestamp: field 2 of the blob, else the modification time.
pub open spec fn meta_created(m: Map<u32, Seq<WireItem>>, mtime: u64) -> Seq<u8> {
    match field_first_bytes(m, 2) {
        Some(b) => b,
        None => timestamp_bytes(mtime, 0),
    }
}

/// The metadata of a conversation, from its blob (if any) with defaults.
pub fn conversation_meta(cid: &str, blob: &Option<Vec<u8>>, mtime_secs: u64) -> (r: ConversationMeta)
    ensures
        r.uri@ == meta_uri(blob_fields(*blob)),
        r.session_id@ == meta_session(blob_fields(*blob), cid@),
        r.ws_bytes@ == meta_ws(blob_fields(*blob)),
        r.created_ts_bytes@ == meta_created(blob_fields(*blob), mtime_secs),
{
    let fields: ProtoFields = match blob {
        Some(b) => parse_proto(b.as_slice()),
        None => {
            let f: ProtoFields = std::collections::HashMap::new();
            assert(fields_view(f) =~= Map::empty());
            f
        },
    };
    let ghost m = fields_view(fields);
    assert(m == blob_fields(*blob));
    let ws = match fields.get_first_bytes(1) {
        Some(b) => Some(vstd::slice::slice_to_vec(b)),
        None => None,
    };
    let created = match fields.get_first_bytes(2) {
        Some(b) => Some(vstd::slice::slice_to_vec(b)),
        None => None,
    };
    let session_id = match fields.get_first_string(3) {
        Some(s) => s,
        None => uuid_v5_dns(cid.as_bytes()),
    };
    let uri = match fields.get_first_string(7) {
        Some(s) => s,
        None => crate::rebuild::owned("file:///etc/nixos"),
    };
    let ws_bytes = match ws {
        Some(w) => w,
        None => make_ws_info(
            uri.as_str(),
            "Orbit-Nix/orbit-config",
            "git@github.com:Orbit-Nix/orbit-config.git",
            "main",
        ),
    };
    let created_ts_bytes = match created {
        Some(c) => c,
        None => make_timestamp(mtime_secs, 0),
    };
    ConversationMeta { ws_bytes, created_ts_bytes, session_id, uri }
}

//=========================================#
//            SUMMARIES                    #
//=========================================#

/// The inner message of a summary (its field 17): workspace, creation time,
/// session id, conversation id and URI.
pub open spec fn detail_bytes(
    ws: Seq<u8>,
    created: Seq<u8>,
    session: Seq<char>,
    cid: Seq<char>,
    uri: Seq<char>,
) -> Seq<u8> {
    bytes_field_bytes(1, ws) + bytes_field_bytes(2, created) + bytes_field_bytes(
        3,
        encode_utf8(session),
    ) + bytes_field_bytes(6, encode_utf8(cid)) + bytes_field_bytes(7, encode_utf8(uri))
}

/// The first half of a summary: title, status 207, modification time,
/// summary id, and the constant 1.
pub open spec fn summary_head_bytes(title: Seq<char>, mtime: u64, summary_id: Seq<char>) -> Seq<u8> {
    bytes_field_bytes(1, encode_utf8(title)) + varint_field_bytes(2, 207) + bytes_field_bytes(
        3,
        timestamp_bytes(mtime, 0),
    ) + bytes_field_bytes(4, encode_utf8(summary_id)) + varint_field_bytes(5, 1)
}

/// The second half of a summary: creation time, workspace, modification
/// time, an empty field 15, the constant 100, the inner message, and the
/// constant 4.
pub open spec fn summary_tail_bytes(created: Seq<u8>, ws: Seq<u8>, mtime: u64, detail: Seq<u8>) -> Seq<
    u8,
> {
    bytes_field_bytes(7, created) + bytes_field_bytes(9, ws) + bytes_field_bytes(
        10,
        timestamp_bytes(mtime, 0),
    ) + bytes_field_bytes(15, seq![]) + varint_field_bytes(16, 100) + bytes_field_bytes(17, detail)
        + varint_field_bytes(22, 4)
}

/// The summary message of a conversation.
#[verifier::opaque]
pub open spec fn summary_bytes(r: ConversationRecord) -> Seq<u8> {
    let m = blob_fields(r.blob);
    let ws = meta_ws(m);
    let created = meta_created(m, r.mtime_secs);
    let detail = detail_bytes(ws, created, meta_session(m, r.cid@), r.cid@, meta_uri(m));
    summary_head_bytes(
        record_title(r),
        r.mtime_secs,
        uuid_v5(namespace_oid(), encode_utf8(r.cid@)),
    ) + summary_tail_bytes(created, ws, r.mtime_secs, detail)
}

/// The list item of a conversation: its id, and its summary as base64 text.
#[verifier::opaque]
pub open spec fn entry_bytes(r: ConversationRecord) -> Seq<u8> {
    bytes_field_bytes(
        1,
        bytes_field_bytes(1, encode_utf8(r.cid@)) + bytes_field_bytes(
            2,
            bytes_field_bytes(1, encode_utf8(base64_text(summary_bytes(r)))),
        ),
    )
}

/// The list of all conversations, in order.
pub open spec fn entries_bytes(rs: Seq<ConversationRecord>) -> Seq<u8>
    decreases rs.len(),
{
    if rs.len() == 0 {
        seq![]
    } else {
        entries_bytes(rs.drop_last()) + entry_bytes(rs.last())
    }
}

/// Appends `b` to `out`.
fn extend(out: &mut Vec<u8>, b: Vec<u8>)
    ensures
        final(out)@ == old(out)@ + b@,
{
    let mut b = b;
    out.append(&mut b);
}

/// The summary message of a conversation.
fn summary_of(rec: &ConversationRecord) -> (r: Vec<u8>)
    requires
        title_is_text(*rec),
    ensures
        r@ == summary_bytes(*rec),
{
    let cid = rec.cid.as_str();
    let meta = conversation_meta(cid, &rec.blob, rec.mtime_secs);
    let title = match conversation_record_title(rec) {
        Some(t) => t,
        None => {
            assert(false);
            String::new()
        },
    };
    assert(title@ == record_title(*rec));

    let mut detail: Vec<u8> = Vec::new();
    extend(&mut detail, encode_field_bytes(1, meta.ws_bytes.as_slice()));
    extend(&mut detail, encode_field_bytes(2, meta.created_ts_bytes.as_slice()));
    extend(&mut detail, encode_field_bytes(3, meta.session_id.as_str().as_bytes()));
    extend(&mut detail, encode_field_bytes(6, cid.as_bytes()));
    extend(&mut detail, encode_field_bytes(7, meta.uri.as_str().as_bytes()));
    assert(detail@ =~= detail_bytes(
        meta.ws_bytes@,
        meta.created_ts_bytes@,
        meta.session_id@,
        rec.cid@,
        meta.uri@,
    ));

    let modified = make_timestamp(rec.mtime_secs, 0);
    let summary_id = uuid_v5_oid(cid.as_bytes());

    let mut head: Vec<u8> = Vec::new();
    extend(&mut head, encode_field_bytes(1, title.as_str().as_bytes()));
    extend(&mut head, encode_field_varint(2, 207));
    extend(&mut head, encode_field_bytes(3, modified.as_slice()));
    extend(&mut head, encode_field_bytes(4, summary_id.as_str().as_bytes()));
    extend(&mut head, encode_field_varint(5, 1));
    assert(head@ =~= summary_head_bytes(title@, rec.mtime_secs, summary_id@));

    let empty: Vec<u8> = Vec::new();
    let mut tail: Vec<u8> = Vec::new();
    extend(&mut tail, encode_field_bytes(7, meta.created_ts_bytes.as_slice()));
    extend(&mut tail, encode_field_bytes(9, meta.ws_bytes.as_slice()));
    extend(&mut tail, encode_field_bytes(10, modified.as_slice()));
    extend(&mut tail, encode_field_bytes(15, empty.as_slice()));
    extend(&mut tail, encode_field_varint(16, 100));
    extend(&mut tail, encode_field_bytes(17, detail.as_slice()));
    extend(&mut tail, encode_field_varint(22, 4));
    assert(empty@ =~= Seq::<u8>::empty());
    assert(tail@ =~= summary_tail_bytes(
        meta.created_ts_bytes@,
        meta.ws_bytes@,
        rec.mtime_secs,
        detail@,
    ));
    extend(&mut head, tail);
    proof {
        reveal(summary_bytes);
    }
    head
}

/// The list item of a conversation, or `None` when the base64 text of its
/// summary would not fit in memory.
pub fn conversation_entry(rec: &ConversationRecord) -> (r: Option<Vec<u8>>)
    requires
        title_is_text(*rec),
    ensures
        match r {
            Some(e) => base64_len_fits(summary_bytes(*rec).len()) && e@ == entry_bytes(*rec),
            None => !base64_len_fits(summary_bytes(*rec).len()),
        },
{
    let summary = summary_of(rec);
    let b64 = match encode_base64(summary.as_slice()) {
        Some(t) => t,
        None => return None,
    };
    let submsg = encode_field_bytes(1, b64.as_str().as_bytes());
    let mut entry: Vec<u8> = Vec::new();
    extend(&mut entry, encode_field_bytes(1, rec.cid.as_str().as_bytes()));
    extend(&mut entry, encode_field_bytes(2, submsg.as_slice()));
    proof {
        reveal(entry_bytes);
    }
    Some(encode_field_bytes(1, entry.as_slice()))
}

/// Whether the base64 text of every summary, and of the whole list, fits in memory.
pub open spec fn summaries_fit(rs: Seq<ConversationRecord>) -> bool {
    (forall|i: int| 0 <= i < rs.len() ==> base64_len_fits(#[trigger] summary_bytes(rs[i]).len()))
        && base64_len_fits(entries_bytes(rs).len())
}

/// The trajectory summaries of the given conversations, in the given order,
/// as the base64 text that the IDE stores, with their number; `None` when a
/// base64 text would not fit in memory.
pub fn trajectory_summaries(records: &Vec<ConversationRecord>) -> (r: Option<(String, usize)>)
    requires
        forall|i: int| 0 <= i < records@.len() ==> title_is_text(#[trigger] records@[i]),
    ensures
        match r {
            Some((text, count)) => summaries_fit(records@) && text@ == base64_text(
                entries_bytes(records@),
            ) && count == records@.len(),
            None => !summaries_fit(records@),
        },
{
    let mut top: Vec<u8> = Vec::new();
    let mut i: usize = 0;
    assert(records@.take(0) =~= Seq::<ConversationRecord>::empty());
    while i < records.len()
        invariant
            i <= records.len(),
            forall|j: int| 0 <= j < records@.len() ==> title_is_text(#[trigger] records@[j]),
            top@ == entries_bytes(records@.take(i as int)),
            forall|j: int| 0 <= j < i ==> base64_len_fits(#[trigger] summary_bytes(records@[j]).len()),
        decreases records.len() - i,
    {
        let e = match conversation_entry(&records[i]) {
            Some(e) => e,
            None => {
                assert(!base64_len_fits(summary_bytes(records@[i as int]).len()));
                return None;
            },
        };
        proof {
            assert(records@.take(i + 1).drop_last() =~= records@.take(i as int));
            assert(records@.take(i + 1).last() == records@[i as int]);
        }
        extend(&mut top, e);
        i = i + 1;
    }
    assert(records@.take(i as int) =~= records@);
    match encode_base64(top.as_slice()) {
        Some(t) => Some((t, records.len())),
        None => None,
    }
}

/// The trajectory summaries of the given conversations, once every title is
/// known to be writable: `Err(i)` when conversation `i` is the first that has
/// no title of its own and an id that cannot be cut after eight bytes;
/// otherwise what `trajectory_summaries` gives.
pub fn checked_trajectory_summaries(records: &Vec<ConversationRecord>) -> (r: Result<
    Option<(String, usize)>,
    usize,
>)
    ensures
        match r {
            Err(i) => i < records@.len() && !title_is_text(records@[i as int]) && forall|j: int|
                0 <= j < i ==> title_is_text(#[trigger] records@[j]),
            Ok(Some((text, count))) => (forall|j: int|
                0 <= j < records@.len() ==> title_is_text(#[trigger] records@[j]))
                && summaries_fit(records@) && text@ == base64_text(entries_bytes(records@))
                && count == records@.len(),
            Ok(None) => (forall|j: int|
                0 <= j < records@.len() ==> title_is_text(#[trigger] records@[j]))
                && !summaries_fit(records@),
        },
{
    let mut i: usize = 0;
    while i < records.len()
        invariant
            i <= records.len(),
            forall|j: int| 0 <= j < i ==> title_is_text(#[trigger] records@[j]),
        decreases records.len() - i,
    {
        if conversation_record_title(&records[i]).is_none() {
            return Err(i);
        }
        i = i + 1;
    }
    Ok(trajectory_summaries(records))
}

/// The workspace info of a conversation is field 1 of its stored metadata
/// blob and its creation time is field 2: for a blob that holds `w` in field
/// 1 and `t` in field 2 (and nothing else), the metadata has workspace info
/// `w` and creation time `t`, whatever the modification time; the URI and
/// session id, absent from the blob, take their defaults.
pub proof fn law_blob_fields_are_workspace_and_creation(
    blob: Vec<u8>,
    cid: Seq<char>,
    mtime: u64,
    w: Seq<u8>,
    t: Seq<u8>,
)
    requires
        w.len() <= u64::MAX,
        t.len() <= u64::MAX,
        blob@ == bytes_field_bytes(1, w) + bytes_field_bytes(2, t),
    ensures
        meta_ws(blob_fields(Some(blob))) == w,
        meta_created(blob_fields(Some(blob)), mtime) == t,
        meta_uri(blob_fields(Some(blob))) == "file:///etc/nixos"@,
        meta_session(blob_fields(Some(blob)), cid) == uuid_v5(namespace_dns(), encode_utf8(cid)),
{
    law_ws_repo_roundtrip(w, t);
    assert(blob@ == ws_repo_bytes(w, t));
    let m = blob_fields(Some(blob));
    assert(m.contains_key(1u32) && m[1u32] == seq![WireItem::Bytes(w)]);
    assert(m.contains_key(2u32) && m[2u32] == seq![WireItem::Bytes(t)]);
    assert(!m.contains_key(3u32) && !m.contains_key(7u32));
    assert(first_bytes(seq![WireItem::Bytes(w)]) == Some(w));
    assert(first_bytes(seq![WireItem::Bytes(t)]) == Some(t));
}

} // verus!
