//! The headers of the requests.
//!
//! Each kind of request has its list of headers, a name and a value each. The
//! list is put into a `HeaderMap`, which takes a name in any case and keeps it
//! in lower case, and which takes no value with a control character in it.

use vstd::prelude::*;
use vstd::string::StringSliceAdditionalSpecFns;

verus! {

/// `reqwest::header::HeaderMap`, of which nothing is known here but what
/// [`header_entries`] names.
#[verifier::external_type_specification]
#[verifier::external_body]
#[verifier::reject_recursive_types(T)]
pub struct ExHeaderMap<T>(reqwest::header::HeaderMap<T>);

/// `reqwest::header::HeaderValue`, of which nothing is known here but what
/// [`header_value_bytes`] names.
#[verifier::external_type_specification]
#[verifier::external_body]
pub struct ExHeaderValue(reqwest::header::HeaderValue);

/// `reqwest::header::InvalidHeaderValue`, of which nothing is known here.
#[verifier::external_type_specification]
#[verifier::external_body]
pub struct ExInvalidHeaderValue(reqwest::header::InvalidHeaderValue);

/// The headers that a map holds: for each name, in lower case, the bytes of
/// the value that was last put in under it.
pub uninterp spec fn header_entries(
    map: reqwest::header::HeaderMap<reqwest::header::HeaderValue>,
) -> Map<Seq<char>, Seq<u8>>;

/// The headers that an empty map holds.
pub open spec fn no_entries() -> Map<Seq<char>, Seq<u8>> {
    Map::empty()
}

/// The bytes of a header value.
pub uninterp spec fn header_value_bytes(value: reqwest::header::HeaderValue) -> Seq<u8>;

/// The characters that a header name is made of: letters, digits and
/// ``!#$%&'*+-.^_`|~``.
pub open spec fn is_name_char(c: char) -> bool {
    ||| 'a' <= c <= 'z'
    ||| 'A' <= c <= 'Z'
    ||| '0' <= c <= '9'
    ||| c == '!'
    ||| '#' <= c <= '\''
    ||| c == '*'
    ||| c == '+'
    ||| c == '-'
    ||| c == '.'
    ||| '^' <= c <= '`'
    ||| c == '|'
    ||| c == '~'
}

/// A header name of up to 64 characters.
pub open spec fn is_header_name(name: Seq<char>) -> bool {
    &&& 1 <= name.len() <= 64
    &&& forall|i: int| 0 <= i < name.len() ==> is_name_char(#[trigger] name[i])
}

/// A letter in lower case; any other character as it is.
pub open spec fn lower(c: char) -> char {
    if 'A' <= c <= 'Z' {
        ((c as u8 + 32) as u8) as char
    } else {
        c
    }
}

/// A header name as a map keeps it: in lower case.
pub open spec fn header_key(name: Seq<char>) -> Seq<char> {
    Seq::new(name.len(), |i: int| lower(name[i]))
}

/// The bytes that a header value is made of: all but the control characters,
/// and the tab.
pub open spec fn is_value_byte(byte: u8) -> bool {
    (byte >= 32 && byte != 127) || byte == 9
}

/// Whether each of the bytes is one that a header value is made of.
pub open spec fn is_header_value(bytes: Seq<u8>) -> bool {
    forall|i: int| 0 <= i < bytes.len() ==> is_value_byte(#[trigger] bytes[i])
}

/// Calls `HeaderMap::new`. The contract claims that the new map holds no
/// header.
#[verifier::external_body]
fn new_header_map() -> (table: reqwest::header::HeaderMap<reqwest::header::HeaderValue>)
    ensures
        header_entries(table) == no_entries(),
{
    reqwest::header::HeaderMap::new()
}

/// Calls `HeaderValue::from_str`. The contract claims that a text is taken if
/// and only if each of its bytes is one that a header value is made of, and
/// that the value then has the bytes of the text.
#[verifier::external_body]
fn header_value_of(text: &str) -> (res: Result<
    reqwest::header::HeaderValue,
    reqwest::header::InvalidHeaderValue,
>)
    ensures
        match res {
            Ok(value) => is_header_value(text.spec_bytes()) && header_value_bytes(value)
                == text.spec_bytes(),
            Err(_) => !is_header_value(text.spec_bytes()),
        },
{
    reqwest::header::HeaderValue::from_str(text)
}

/// Calls `HeaderMap::insert` with a name given as a text, and drops what the
/// call returns. The contract claims that the map then holds the value under
/// the name in lower case, in place of what it held under that name, and
/// every other header as before. The call panics on what is no header name,
/// and on a map that cannot grow: the contract asks for a name of up to 64
/// characters and a map of fewer than 1024 headers.
#[verifier::external_body]
fn insert_header(
    table: &mut reqwest::header::HeaderMap<reqwest::header::HeaderValue>,
    name: &'static str,
    value: reqwest::header::HeaderValue,
)
    requires
        is_header_name(name@),
        header_entries(*old(table)).dom().finite(),
        header_entries(*old(table)).dom().len() < 1024,
    ensures
        header_entries(*final(table)) == header_entries(*old(table)).insert(
            header_key(name@),
            header_value_bytes(value),
        ),
{
    table.insert(name, value);
}

/// Tells whether a byte is one that a header name is made of.
pub fn name_byte(byte: u8) -> (res: bool)
    ensures
        res == is_name_char(byte as char),
{
    (97 <= byte && byte <= 122) || (65 <= byte && byte <= 90) || (48 <= byte && byte <= 57) || byte
        == 33 || (35 <= byte && byte <= 39) || byte == 42 || byte == 43 || byte == 45 || byte == 46
        || (94 <= byte && byte <= 96) || byte == 124 || byte == 126
}

/// Tells whether a text is a header name of up to 64 characters.
pub fn header_name_ok(name: &str) -> (res: bool)
    ensures
        res == is_header_name(name@),
{
    if !name.is_ascii() {
        proof {
            let at = choose|i: int|
                0 <= i < name@.len() && !('\0' <= #[trigger] name@[i] <= '\u{7f}');
            assert(!is_name_char(name@[at]));
        }
        return false;
    }
    proof {
        vstd::string::is_ascii_spec_bytes(name);
    }
    let bytes = name.as_bytes();
    if bytes.len() < 1 || bytes.len() > 64 {
        return false;
    }
    let mut at: usize = 0;
    while at < bytes.len()
        invariant
            at <= bytes.len(),
            bytes@.len() == name@.len(),
            forall|i: int| 0 <= i < bytes@.len() ==> bytes@[i] == name@[i] as u8,
            forall|i: int| 0 <= i < name@.len() ==> '\0' <= #[trigger] name@[i] <= '\u{7f}',
            forall|i: int| 0 <= i < at ==> is_name_char(#[trigger] name@[i]),
        decreases bytes.len() - at,
    {
        if !name_byte(bytes[at]) {
            assert(name@[at as int] as u8 as char == name@[at as int]);
            return false;
        }
        assert(name@[at as int] as u8 as char == name@[at as int]);
        at = at + 1;
    }
    true
}

/// A header: its name and its value.
pub struct Header {
    pub name: &'static str,
    pub value: String,
}

/// What a [`Header`] stands for.
pub struct HeaderModel {
    pub name: Seq<char>,
    pub value: Seq<char>,
}

impl View for Header {
    type V = HeaderModel;

    open spec fn view(&self) -> HeaderModel {
        HeaderModel { name: self.name@, value: self.value@ }
    }
}

/// The headers, each by its view.
pub open spec fn headers_view(headers: Seq<Header>) -> Seq<HeaderModel> {
    Seq::new(headers.len(), |i: int| headers[i]@)
}

/// Whether a header can be put into a map.
pub open spec fn is_header(header: HeaderModel) -> bool {
    is_header_name(header.name) && is_header_value(vstd::utf8::encode_utf8(header.value))
}

/// Whether each of the headers can be put into a map.
pub open spec fn are_headers(headers: Seq<HeaderModel>) -> bool {
    forall|i: int| 0 <= i < headers.len() ==> is_header(#[trigger] headers[i])
}

/// What a map holds once the headers were put into it in their order: a later
/// header takes the place of an earlier one of its name.
pub open spec fn entries_of(headers: Seq<HeaderModel>) -> Map<Seq<char>, Seq<u8>>
    decreases headers.len(),
{
    if headers.len() == 0 {
        Map::empty()
    } else {
        entries_of(headers.drop_last()).insert(
            header_key(headers.last().name),
            vstd::utf8::encode_utf8(headers.last().value),
        )
    }
}

/// A map of as many headers as there are in a list, or fewer.
pub proof fn lemma_entries_are_few(headers: Seq<HeaderModel>)
    ensures
        entries_of(headers).dom().finite(),
        entries_of(headers).dom().len() <= headers.len(),
    decreases headers.len(),
{
    if headers.len() > 0 {
        lemma_entries_are_few(headers.drop_last());
    }
}

/// How many headers a list may hold to be put into a map.
pub const MAX_HEADERS: usize = 1024;

/// Puts headers into a new map, in their order, if each can be put there and
/// there are no more than [`MAX_HEADERS`] of them.
pub fn to_header_map(headers: &Vec<Header>) -> (res: Option<
    reqwest::header::HeaderMap<reqwest::header::HeaderValue>,
>)
    ensures
        match res {
            Some(table) => headers.len() <= MAX_HEADERS && are_headers(headers_view(headers@))
                && header_entries(table) == entries_of(headers_view(headers@)),
            None => headers.len() > MAX_HEADERS || !are_headers(headers_view(headers@)),
        },
{
    if headers.len() > MAX_HEADERS {
        return None;
    }
    let ghost all = headers_view(headers@);
    let mut table = new_header_map();
    let mut at: usize = 0;
    assert(all.take(0) =~= Seq::<HeaderModel>::empty());
    while at < headers.len()
        invariant
            at <= headers.len() <= MAX_HEADERS,
            all == headers_view(headers@),
            header_entries(table) == entries_of(all.take(at as int)),
            forall|i: int| 0 <= i < at ==> is_header(#[trigger] all[i]),
        decreases headers.len() - at,
    {
        let header = &headers[at];
        assert(all[at as int] == header@);
        if !header_name_ok(header.name) {
            return None;
        }
        match header_value_of(header.value.as_str()) {
            Ok(value) => {
                proof {
                    lemma_entries_are_few(all.take(at as int));
                    assert(all.take(at + 1).drop_last() =~= all.take(at as int));
                }
                insert_header(&mut table, header.name, value);
            },
            Err(_) => {
                return None;
            },
        }
        at = at + 1;
    }
    assert(all.take(at as int) =~= all);
    Some(table)
}

/// A list of headers.
pub trait Headers {
    /// The headers, in the order in which they are put into the map.
    spec fn headers(&self) -> Seq<HeaderModel>;

    /// The map of the headers, if each of them can be put into a map.
    fn to_headers(&self) -> (res: Option<
        reqwest::header::HeaderMap<reqwest::header::HeaderValue>,
    >)
        ensures
            match res {
                Some(table) => are_headers(self.headers()) && header_entries(table) == entries_of(
                    self.headers(),
                ),
                None => !are_headers(self.headers()),
            },
    ;
}

/// A character that stands in a header value as one byte.
pub open spec fn is_plain_char(c: char) -> bool {
    ' ' <= c <= '~'
}

/// A text of plain characters is a header value.
pub proof fn lemma_plain_text_is_value(text: Seq<char>)
    requires
        forall|i: int| 0 <= i < text.len() ==> is_plain_char(#[trigger] text[i]),
    ensures
        is_header_value(vstd::utf8::encode_utf8(text)),
{
    assert(vstd::utf8::is_ascii_chars(text)) by {
        assert forall|i: int| 0 <= i < text.len() implies '\0' <= #[trigger] text[i]
            <= '\u{7f}' by {
            assert(is_plain_char(text[i]));
        }
    }
    vstd::utf8::is_ascii_chars_encode_utf8(text);
    let bytes = vstd::utf8::encode_utf8(text);
    assert forall|i: int| 0 <= i < bytes.len() implies is_value_byte(#[trigger] bytes[i]) by {
        assert(is_plain_char(text[i]));
        assert(bytes[i] == text[i] as u8);
    }
}

/// A header of a name and a value.
pub open spec fn pair(name: Seq<char>, value: Seq<char>) -> HeaderModel {
    HeaderModel { name, value }
}

/// A header whose name is a header name and whose value is made of plain
/// characters can be put into a map.
pub proof fn lemma_plain_header(name: Seq<char>, value: Seq<char>)
    requires
        is_header_name(name),
        forall|i: int| 0 <= i < value.len() ==> is_plain_char(#[trigger] value[i]),
    ensures
        is_header(pair(name, value)),
{
    lemma_plain_text_is_value(value);
}

/// A header of a name and a value.
pub fn header(name: &'static str, value: &str) -> (res: Header)
    ensures
        res@ == pair(name@, value@),
{
    Header { name, value: value.to_owned() }
}

/// The headers of the requests of the device login.
pub struct LoginHeaders();

/// The headers of the request for the profile of the user.
pub struct GithubUserHeaders<'a> {
    pub token: &'a String,
    pub token_type: &'a String,
}

/// The headers of the request for the token of the chat service.
pub struct GithubInternalHeaders<'a> {
    pub token: &'a String,
}

/// The headers of a chat request.
pub struct CopilotCompletionHeaders<'a> {
    pub token: &'a String,
    pub vscode_sid: &'a String,
    pub device_id: &'a String,
}

/// The headers of the device login can be put into a map.
pub proof fn lemma_login_headers()
    ensures
        are_headers(LoginHeaders().headers()),
{
    reveal_strlit("Accept");
    reveal_strlit("application/json");
    reveal_strlit("User-Agent");
    reveal_strlit("GithubCopilot/1.133.0");
    reveal_strlit("X-Editor-Version");
    reveal_strlit("Neovim/0.9.2");
    reveal_strlit("X-Editor-Plugin-Version");
    reveal_strlit("copilot.lua/1.11.4");
    reveal_strlit("X-User-Agent-Version");
    lemma_plain_header("Accept"@, "application/json"@);
    lemma_plain_header("User-Agent"@, "GithubCopilot/1.133.0"@);
    lemma_plain_header("X-Editor-Version"@, "Neovim/0.9.2"@);
    lemma_plain_header("X-Editor-Plugin-Version"@, "copilot.lua/1.11.4"@);
    lemma_plain_header("X-User-Agent-Version"@, "GithubCopilot/1.133.0"@);
}

impl Headers for LoginHeaders {
    open spec fn headers(&self) -> Seq<HeaderModel> {
        seq![
            pair("Accept"@, "application/json"@),
            pair("User-Agent"@, "GithubCopilot/1.133.0"@),
            pair("X-Editor-Version"@, "Neovim/0.9.2"@),
            pair("X-Editor-Plugin-Version"@, "copilot.lua/1.11.4"@),
            pair("X-User-Agent-Version"@, "GithubCopilot/1.133.0"@),
        ]
    }

    /// The map of the headers: there always is one.
    fn to_headers(&self) -> (res: Option<reqwest::header::HeaderMap<reqwest::header::HeaderValue>>)
        ensures
            res is Some,
    {
        let mut list: Vec<Header> = Vec::new();
        list.push(header("Accept", "application/json"));
        list.push(header("User-Agent", "GithubCopilot/1.133.0"));
        list.push(header("X-Editor-Version", "Neovim/0.9.2"));
        list.push(header("X-Editor-Plugin-Version", "copilot.lua/1.11.4"));
        list.push(header("X-User-Agent-Version", "GithubCopilot/1.133.0"));
        proof {
            assert(headers_view(list@) =~= self.headers());
            lemma_login_headers();
        }
        to_header_map(&list)
    }
}

impl<'a> GithubUserHeaders<'a> {
    /// The value of the header `Authorization`: the type of the token, a
    /// space, and the token.
    pub open spec fn authorization(&self) -> Seq<char> {
        self.token_type@ + " "@ + self.token@
    }

    /// Whether the token and its type can stand in a header.
    pub open spec fn sendable(&self) -> bool {
        is_header_value(vstd::utf8::encode_utf8(self.authorization()))
    }

    /// The headers can be put into a map where the token and its type can
    /// stand in a header, and only there.
    pub proof fn lemma_headers(&self)
        ensures
            are_headers(self.headers()) <==> self.sendable(),
    {
        reveal_strlit("Authorization");
        reveal_strlit("User-Agent");
        reveal_strlit("GithubCopilot/1.133.0");
        reveal_strlit("Accept");
        reveal_strlit("application/json");
        lemma_plain_header("User-Agent"@, "GithubCopilot/1.133.0"@);
        lemma_plain_header("Accept"@, "application/json"@);
        assert(is_header_name("Authorization"@));
        if are_headers(self.headers()) {
            assert(is_header(self.headers()[0]));
        }
    }
}

impl<'a> Headers for GithubUserHeaders<'a> {
    open spec fn headers(&self) -> Seq<HeaderModel> {
        seq![
            pair("Authorization"@, self.authorization()),
            pair("User-Agent"@, "GithubCopilot/1.133.0"@),
            pair("Accept"@, "application/json"@),
        ]
    }

    /// The map of the headers, where the token and its type can stand in a
    /// header.
    fn to_headers(&self) -> (res: Option<reqwest::header::HeaderMap<reqwest::header::HeaderValue>>)
        ensures
            res is Some <==> self.sendable(),
    {
        let mut authorization: String = self.token_type.clone();
        authorization.append(" ");
        authorization.append(self.token.as_str());
        let mut list: Vec<Header> = Vec::new();
        list.push(header("Authorization", authorization.as_str()));
        list.push(header("User-Agent", "GithubCopilot/1.133.0"));
        list.push(header("Accept", "application/json"));
        proof {
            assert(headers_view(list@) =~= self.headers());
            self.lemma_headers();
        }
        to_header_map(&list)
    }
}

impl<'a> GithubInternalHeaders<'a> {
    /// The value of the header `Authorization`: `token`, a space, and the
    /// token.
    pub open spec fn authorization(&self) -> Seq<char> {
        "token "@ + self.token@
    }

    /// Whether the token can stand in a header.
    pub open spec fn sendable(&self) -> bool {
        is_header_value(vstd::utf8::encode_utf8(self.authorization()))
    }

    /// The headers can be put into a map where the token can stand in a
    /// header, and only there.
    pub proof fn lemma_headers(&self)
        ensures
            are_headers(self.headers()) <==> self.sendable(),
    {
        reveal_strlit("Authorization");
        reveal_strlit("user-agent");
        reveal_strlit("GitHubCopilotChat/0.12.2023120701");
        reveal_strlit("editor-version");
        reveal_strlit("vscode/1.85.1");
        reveal_strlit("editor-plugin-version");
        reveal_strlit("copilot-chat/0.12.2023120701");
        lemma_plain_header("user-agent"@, "GitHubCopilotChat/0.12.2023120701"@);
        lemma_plain_header("editor-version"@, "vscode/1.85.1"@);
        lemma_plain_header("editor-plugin-version"@, "copilot-chat/0.12.2023120701"@);
        assert(is_header_name("Authorization"@));
        if are_headers(self.headers()) {
            assert(is_header(self.headers()[0]));
        }
    }
}

impl<'a> Headers for GithubInternalHeaders<'a> {
    open spec fn headers(&self) -> Seq<HeaderModel> {
        seq![
            pair("Authorization"@, self.authorization()),
            pair("user-agent"@, "GitHubCopilotChat/0.12.2023120701"@),
            pair("editor-version"@, "vscode/1.85.1"@),
            pair("editor-plugin-version"@, "copilot-chat/0.12.2023120701"@),
        ]
    }

    /// The map of the headers, where the token can stand in a header.
    fn to_headers(&self) -> (res: Option<reqwest::header::HeaderMap<reqwest::header::HeaderValue>>)
        ensures
            res is Some <==> self.sendable(),
    {
        let mut authorization: String = "token ".to_owned();
        authorization.append(self.token.as_str());
        let mut list: Vec<Header> = Vec::new();
        list.push(header("Authorization", authorization.as_str()));
        list.push(header("user-agent", "GitHubCopilotChat/0.12.2023120701"));
        list.push(header("editor-version", "vscode/1.85.1"));
        list.push(header("editor-plugin-version", "copilot-chat/0.12.2023120701"));
        proof {
            assert(headers_view(list@) =~= self.headers());
            self.lemma_headers();
        }
        to_header_map(&list)
    }
}

impl<'a> CopilotCompletionHeaders<'a> {
    /// The value of the header `Authorization`: `Bearer`, a space, and the
    /// token.
    pub open spec fn authorization(&self) -> Seq<char> {
        "Bearer "@ + self.token@
    }

    /// Whether the token and the two identifiers can stand in a header.
    pub open spec fn sendable(&self) -> bool {
        &&& is_header_value(vstd::utf8::encode_utf8(self.authorization()))
        &&& is_header_value(vstd::utf8::encode_utf8(self.vscode_sid@))
        &&& is_header_value(vstd::utf8::encode_utf8(self.device_id@))
    }

    /// The headers can be put into a map where the token and the two
    /// identifiers can stand in a header, and only there.
    pub proof fn lemma_headers(&self)
        ensures
            are_headers(self.headers()) <==> self.sendable(),
    {
        reveal_strlit("Authorization");
        reveal_strlit("vscode-sessionid");
        reveal_strlit("machineid");
        reveal_strlit("editor-version");
        reveal_strlit("vscode/1.85.1");
        reveal_strlit("editor-plugin-version");
        reveal_strlit("copilot-chat/0.12.2023120701");
        reveal_strlit("openai-organization");
        reveal_strlit("github-copilot");
        reveal_strlit("openai-intent");
        reveal_strlit("conversation-panel");
        reveal_strlit("Content-Type");
        reveal_strlit("application/json");
        reveal_strlit("User-Agent");
        reveal_strlit("GitHubCopilotChat/0.12.2023120701");
        lemma_plain_header("editor-version"@, "vscode/1.85.1"@);
        lemma_plain_header("editor-plugin-version"@, "copilot-chat/0.12.2023120701"@);
        lemma_plain_header("openai-organization"@, "github-copilot"@);
        lemma_plain_header("openai-intent"@, "conversation-panel"@);
        lemma_plain_header("Content-Type"@, "application/json"@);
        lemma_plain_header("User-Agent"@, "GitHubCopilotChat/0.12.2023120701"@);
        assert(is_header_name("Authorization"@));
        assert(is_header_name("vscode-sessionid"@));
        assert(is_header_name("machineid"@));
        if are_headers(self.headers()) {
            assert(is_header(self.headers()[0]));
            assert(is_header(self.headers()[1]));
            assert(is_header(self.headers()[2]));
        }
    }
}

impl<'a> Headers for CopilotCompletionHeaders<'a> {
    open spec fn headers(&self) -> Seq<HeaderModel> {
        seq![
            pair("Authorization"@, self.authorization()),
            pair("vscode-sessionid"@, self.vscode_sid@),
            pair("machineid"@, self.device_id@),
            pair("editor-version"@, "vscode/1.85.1"@),
            pair("editor-plugin-version"@, "copilot-chat/0.12.2023120701"@),
            pair("openai-organization"@, "github-copilot"@),
            pair("openai-intent"@, "conversation-panel"@),
            pair("Content-Type"@, "application/json"@),
            pair("User-Agent"@, "GitHubCopilotChat/0.12.2023120701"@),
        ]
    }

    /// The map of the headers, where the token and the two identifiers can
    /// stand in a header.
    fn to_headers(&self) -> (res: Option<reqwest::header::HeaderMap<reqwest::header::HeaderValue>>)
        ensures
            res is Some <==> self.sendable(),
    {
        let mut authorization: String = "Bearer ".to_owned();
        authorization.append(self.token.as_str());
        let mut list: Vec<Header> = Vec::new();
        list.push(header("Authorization", authorization.as_str()));
        list.push(header("vscode-sessionid", self.vscode_sid.as_str()));
        list.push(header("machineid", self.device_id.as_str()));
        list.push(header("editor-version", "vscode/1.85.1"));
        list.push(header("editor-plugin-version", "copilot-chat/0.12.2023120701"));
        list.push(header("openai-organization", "github-copilot"));
        list.push(header("openai-intent", "conversation-panel"));
        list.push(header("Content-Type", "application/json"));
        list.push(header("User-Agent", "GitHubCopilotChat/0.12.2023120701"));
        proof {
            assert(headers_view(list@) =~= self.headers());
            self.lemma_headers();
        }
        to_header_map(&list)
    }
}

} // verus!
