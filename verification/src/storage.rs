//! Saved browser state: cookies, and what origins store.

use vstd::prelude::*;

use crate::collections;
use crate::collections::set_insert;
use crate::interop;
use crate::interop::quote;
use crate::json;
use crate::json::{Json, JsonView};
use crate::records::copy_values;
use crate::text;
use crate::text::{byte_len, str_eq, u64_text, Chars};

verus! {

/// An entry of a storage.
pub struct StorageEntry {
    pub name: String,
    pub value: String,
}

/// Model of an entry.
#[verifier::ext_equal]
pub struct EntryView {
    pub name: Chars,
    pub value: Chars,
}

impl DeepView for StorageEntry {
    type V = EntryView;

    open spec fn deep_view(&self) -> EntryView {
        EntryView { name: self.name@, value: self.value@ }
    }
}

/// What an origin stores.
pub struct OriginStorage {
    pub origin: String,
    pub local_storage: Vec<StorageEntry>,
    pub session_storage: Vec<StorageEntry>,
}

/// Model of what an origin stores.
#[verifier::ext_equal]
pub struct OriginView {
    pub origin: Chars,
    pub local_storage: Seq<EntryView>,
    pub session_storage: Seq<EntryView>,
}

impl DeepView for OriginStorage {
    type V = OriginView;

    open spec fn deep_view(&self) -> OriginView {
        OriginView {
            origin: self.origin@,
            local_storage: self.local_storage.deep_view(),
            session_storage: self.session_storage.deep_view(),
        }
    }
}

/// A saved state. A cookie is held as the record that describes it.
pub struct StorageState {
    pub cookies: Vec<Json>,
    pub origins: Vec<OriginStorage>,
}

/// Model of a saved state.
#[verifier::ext_equal]
pub struct StorageView {
    pub cookies: Seq<JsonView>,
    pub origins: Seq<OriginView>,
}

impl DeepView for StorageState {
    type V = StorageView;

    open spec fn deep_view(&self) -> StorageView {
        StorageView { cookies: self.cookies.deep_view(), origins: self.origins.deep_view() }
    }
}

impl EntryView {
    /// The entry as it is saved.
    pub open spec fn to_json(self) -> JsonView {
        JsonView::object().with("name"@, JsonView::Str(self.name)).with(
            "value"@,
            JsonView::Str(self.value),
        )
    }
}

/// Entries as they are saved.
pub open spec fn entries_json(entries: Seq<EntryView>) -> JsonView {
    JsonView::Array(entries.map_values(|e: EntryView| e.to_json()))
}

impl OriginView {
    /// The origin as it is saved.
    pub open spec fn to_json(self) -> JsonView {
        JsonView::object().with("origin"@, JsonView::Str(self.origin)).with(
            "localStorage"@,
            entries_json(self.local_storage),
        ).with("sessionStorage"@, entries_json(self.session_storage))
    }

    /// Whether the origin stores anything.
    pub open spec fn holds_data(self) -> bool {
        self.local_storage.len() > 0 || self.session_storage.len() > 0
    }
}

impl StorageView {
    /// The state as it is saved.
    pub open spec fn to_json(self) -> JsonView {
        JsonView::object().with("cookies"@, JsonView::Array(self.cookies)).with(
            "origins"@,
            JsonView::Array(self.origins.map_values(|o: OriginView| o.to_json())),
        )
    }
}

fn write_entries(entries: &Vec<StorageEntry>) -> (r: Json)
    ensures
        r@ == entries_json(entries.deep_view()),
{
    let mut items: Vec<Json> = Vec::new();
    let mut i: usize = 0;
    while i < entries.len()
        invariant
            i == items.len() <= entries.len(),
            forall|j: int|
                0 <= j < i ==> (#[trigger] items@[j])@ == entries.deep_view()[j].to_json(),
        decreases entries.len() - i,
    {
        assert(entries.deep_view()[i as int] == entries@[i as int].deep_view());
        items.push(
            Json::object().with("name", Json::text(entries[i].name.as_str())).with(
                "value",
                Json::text(entries[i].value.as_str()),
            ),
        );
        i = i + 1;
    }
    assert(items.deep_view() =~= entries.deep_view().map_values(|e: EntryView| e.to_json()));
    Json::array(items)
}

impl OriginStorage {
    /// The origin as it is saved.
    pub fn to_json(&self) -> (r: Json)
        ensures
            r@ == self.deep_view().to_json(),
    {
        Json::object().with("origin", Json::text(self.origin.as_str())).with(
            "localStorage",
            write_entries(&self.local_storage),
        ).with("sessionStorage", write_entries(&self.session_storage))
    }

    /// Whether the origin stores anything.
    pub fn holds_data(&self) -> (r: bool)
        ensures
            r == self.deep_view().holds_data(),
    {
        self.local_storage.len() > 0 || self.session_storage.len() > 0
    }
}

impl StorageState {
    /// The state as it is saved.
    pub fn to_json(&self) -> (r: Json)
        ensures
            r@ == self.deep_view().to_json(),
    {
        let mut items: Vec<Json> = Vec::new();
        let mut i: usize = 0;
        while i < self.origins.len()
            invariant
                i == items.len() <= self.origins.len(),
                forall|j: int|
                    0 <= j < i ==> (#[trigger] items@[j])@ == self.origins.deep_view()[j].to_json(),
            decreases self.origins.len() - i,
        {
            assert(self.origins.deep_view()[i as int] == self.origins@[i as int].deep_view());
            items.push(self.origins[i].to_json());
            i = i + 1;
        }
        assert(items.deep_view() =~= self.origins.deep_view().map_values(
            |o: OriginView| o.to_json(),
        ));
        Json::object().with("cookies", Json::array(copy_values(&self.cookies))).with(
            "origins",
            Json::array(items),
        )
    }
}

/// Scheme and origin of an address, where the address is an absolute URL.
pub uninterp spec fn url_parts(address: Chars) -> Option<(Chars, Chars)>;

/// `url::Url::parse`, and of what it parsed the scheme and the ASCII form of
/// the origin. Whether the address is taken, and the two texts, depend on the
/// address alone.
#[verifier::external_body]
fn parse_url(address: &str) -> (r: Option<(String, String)>)
    ensures
        r.deep_view() == url_parts(address@),
{
    let parsed = url::Url::parse(address).ok()?;
    Some((parsed.scheme().to_string(), parsed.origin().ascii_serialization()))
}

/// The origin of a frame, where it has one that can store anything.
pub open spec fn frame_origin(parts: Option<(Chars, Chars)>) -> Option<Chars> {
    match parts {
        Some((_, origin)) => if origin != "null"@ && origin.len() > 0 {
            Some(origin)
        } else {
            None
        },
        None => None,
    }
}

/// Address of the frame at the top of a tree.
pub open spec fn frame_url(tree: JsonView) -> Option<Chars> {
    match JsonView::inner(tree.get("frame"@), "url"@) {
        Some(url) => url.as_str(),
        None => None,
    }
}

/// Origins with that of the frame at the top of a tree.
pub open spec fn with_frame(tree: JsonView, origins: Seq<Chars>) -> Seq<Chars> {
    match frame_url(tree) {
        Some(url) => match frame_origin(url_parts(url)) {
            Some(origin) => collections::set_with(origins, origin),
            None => origins,
        },
        None => origins,
    }
}

/// Trees below a tree.
pub open spec fn child_frames(tree: JsonView) -> Seq<JsonView> {
    match tree {
        JsonView::Object(members) => match tree.get_array("childFrames"@) {
            Some(children) => if members.dom().finite() {
                children
            } else {
                Seq::empty()
            },
            None => Seq::empty(),
        },
        _ => Seq::empty(),
    }
}

/// A tree is larger than the trees below it.
pub proof fn lemma_child_frames(tree: JsonView)
    ensures
        child_frames(tree).len() > 0 ==> decreases_to!(tree => child_frames(tree)),
{
    if child_frames(tree).len() > 0 {
        let members = tree->Object_0;
        let value = members["childFrames"@];
        assert(decreases_to!(tree => tree->Object_0));
        assert(decreases_to!(members => members["childFrames"@]));
        assert(decreases_to!(value => value->Array_0));
        assert(child_frames(tree) == value->Array_0);
    }
}

/// Origins with those of the frames of a tree; the frame at the top comes
/// first.
pub open spec fn tree_origins(tree: JsonView, origins: Seq<Chars>) -> Seq<Chars>
    decreases tree,
{
    proof {
        lemma_child_frames(tree);
    }
    let own = with_frame(tree, origins);
    if child_frames(tree).len() > 0 {
        forest_origins(child_frames(tree), own)
    } else {
        own
    }
}

/// Origins with those of the frames of several trees, one after the other.
pub open spec fn forest_origins(trees: Seq<JsonView>, origins: Seq<Chars>) -> Seq<Chars>
    decreases trees,
{
    if trees.len() == 0 {
        origins
    } else {
        tree_origins(trees[trees.len() - 1], forest_origins(trees.drop_last(), origins))
    }
}

/// Adds the origins of the frames of a tree.
pub fn collect_frame_origins(tree: &Json, origins: &mut Vec<String>)
    ensures
        final(origins).deep_view() == tree_origins(tree@, old(origins).deep_view()),
    decreases tree@,
{
    let url = match Json::inner(tree.get("frame"), "url") {
        Some(url) => url.as_str(),
        None => None,
    };
    if let Some(url) = url {
        if let Some((_, origin)) = parse_url(url) {
            if !str_eq(origin.as_str(), "null") && !origin.as_str().is_empty() {
                set_insert(origins, origin.as_str());
            }
        }
    }
    let ghost own = origins.deep_view();
    assert(own == with_frame(tree@, old(origins).deep_view()));
    proof {
        json::lemma_finite_members(*tree);
    }
    if let Some(children) = tree.get_array("childFrames") {
        let ghost all = children.deep_view();
        let mut i: usize = 0;
        assert(all.take(0) =~= Seq::<JsonView>::empty());
        while i < children.len()
            invariant
                all == children.deep_view(),
                child_frames(tree@) == all,
                i <= children.len(),
                origins.deep_view() == forest_origins(all.take(i as int), own),
            decreases children.len() - i,
        {
            proof {
                lemma_child_frames(tree@);
                assert(all.take(i + 1).drop_last() == all.take(i as int));
                assert(all[i as int] == children@[i as int].deep_view());
                assert(all.take(i + 1)[i as int] == all[i as int]);
                assert(decreases_to!(all => all[i as int]));
            }
            collect_frame_origins(&children[i], origins);
            i = i + 1;
        }
        assert(all.take(i as int) == all);
    }
}

/// The origin that an address to be saved stands for, or what is wrong with it.
pub open spec fn included_origin(input: Chars, parts: Option<(Chars, Chars)>) -> Result<
    Chars,
    Chars,
> {
    let name = "Invalid include origin '"@ + input;
    match parts {
        None => Err(name + "': expected an absolute HTTP(S) URL"@),
        Some((scheme, origin)) => if scheme != "http"@ && scheme != "https"@ {
            Err(name + "': only HTTP(S) origins are supported"@)
        } else if origin == "null"@ {
            Err(name + "': URL has no origin"@)
        } else {
            Ok(origin)
        },
    }
}

/// Chooses the origin of an address from its scheme and origin.
pub fn choose_origin(input: &str, parts: Option<(String, String)>) -> (r: Result<String, String>)
    ensures
        text::outcome(r) == included_origin(input@, parts.deep_view()),
{
    let name = "Invalid include origin '".to_owned().concat(input);
    match parts {
        None => Err(name.concat("': expected an absolute HTTP(S) URL")),
        Some((scheme, origin)) => if !str_eq(scheme.as_str(), "http") && !str_eq(
            scheme.as_str(),
            "https",
        ) {
            Err(name.concat("': only HTTP(S) origins are supported"))
        } else if str_eq(origin.as_str(), "null") {
            Err(name.concat("': URL has no origin"))
        } else {
            Ok(origin)
        },
    }
}

/// The origin that an address to be saved stands for.
pub fn normalize_included_origin(input: &str) -> (r: Result<String, String>)
    ensures
        text::outcome(r) == included_origin(input@, url_parts(input@)),
{
    choose_origin(input, parse_url(input))
}

/// An entry of a storage, as a page or a file describes it: an object with name
/// and value, or a pair of them.
pub open spec fn entry_of(value: JsonView) -> Option<EntryView> {
    match value {
        JsonView::Array(items) => if items.len() == 2 && items[0].as_str() is Some
            && items[1].as_str() is Some {
            Some(
                EntryView {
                    name: items[0].as_str()->Some_0,
                    value: items[1].as_str()->Some_0,
                },
            )
        } else {
            None
        },
        _ => match (value.get_str("name"@), value.get_str("value"@)) {
            (Some(name), Some(text)) => Some(EntryView { name, value: text }),
            _ => None,
        },
    }
}

/// Whether every value describes an entry.
pub open spec fn all_entries(values: Seq<JsonView>) -> bool {
    forall|i: int| 0 <= i < values.len() ==> entry_of(#[trigger] values[i]) is Some
}

/// The entries that a member describes; none where one of them is no entry.
pub open spec fn entries_at(object: JsonView, key: Chars) -> Seq<EntryView> {
    match object.get_array(key) {
        Some(values) => if all_entries(values) {
            values.map_values(|v: JsonView| entry_of(v)->Some_0)
        } else {
            Seq::empty()
        },
        None => Seq::empty(),
    }
}

/// What an origin stores, as its page describes it.
pub open spec fn origin_storage_of(data: JsonView) -> Option<OriginView> {
    match data.get_str("origin"@) {
        Some(origin) => if origin.len() == 0 || origin == "null"@ {
            None
        } else {
            Some(
                OriginView {
                    origin,
                    local_storage: entries_at(data, "localStorage"@),
                    session_storage: entries_at(data, "sessionStorage"@),
                },
            )
        },
        None => None,
    }
}

fn read_entry(value: &Json) -> (r: Option<StorageEntry>)
    ensures
        r.deep_view() == entry_of(value@),
{
    if let Json::Array(items) = value {
        assert(value@ == JsonView::Array(json::items_view(items@)));
        assert(json::items_view(items@) =~= items.deep_view());
        if items.len() != 2 {
            return None;
        }
        assert(items.deep_view()[0] == items@[0]@);
        assert(items.deep_view()[1] == items@[1]@);
        return match (items[0].as_str(), items[1].as_str()) {
            (Some(name), Some(text)) => Some(
                StorageEntry { name: name.to_owned(), value: text.to_owned() },
            ),
            _ => None,
        };
    }
    match (value.get_str("name"), value.get_str("value")) {
        (Some(name), Some(text)) => Some(
            StorageEntry { name: name.to_owned(), value: text.to_owned() },
        ),
        _ => None,
    }
}

fn read_entries(object: &Json, key: &str) -> (r: Vec<StorageEntry>)
    ensures
        r.deep_view() == entries_at(object@, key@),
{
    let mut entries: Vec<StorageEntry> = Vec::new();
    assert(entries.deep_view() =~= Seq::<EntryView>::empty());
    let values = match object.get_array(key) {
        Some(values) => values,
        None => {
            return entries;
        },
    };
    let ghost all = values.deep_view();
    let mut i: usize = 0;
    while i < values.len()
        invariant
            all == values.deep_view(),
            object@.get_array(key@) == Some(all),
            i == entries.len() <= values.len(),
            forall|j: int|
                0 <= j < i ==> entry_of(#[trigger] all[j]) == Some(entries.deep_view()[j]),
        decreases values.len() - i,
    {
        assert(all[i as int] == values@[i as int].deep_view());
        let ghost was = entries.deep_view();
        match read_entry(&values[i]) {
            Some(entry) => {
                entries.push(entry);
                assert(entries.deep_view() =~= was.push(entry.deep_view()));
            },
            None => {
                let none: Vec<StorageEntry> = Vec::new();
                assert(none.deep_view() =~= Seq::<EntryView>::empty());
                assert(entry_of(all[i as int]) is None);
                return none;
            },
        }
        i = i + 1;
    }
    assert(all_entries(all));
    assert(entries.deep_view() =~= all.map_values(|v: JsonView| entry_of(v)->Some_0));
    entries
}

/// Reads what an origin stores, as its page describes it.
pub fn parse_origin_storage(data: &Json) -> (r: Option<OriginStorage>)
    ensures
        r.deep_view() == origin_storage_of(data@),
{
    match data.get_str("origin") {
        None => None,
        Some(origin) => if origin.is_empty() || str_eq(origin, "null") {
            None
        } else {
            Some(
                OriginStorage {
                    origin: origin.to_owned(),
                    local_storage: read_entries(data, "localStorage"),
                    session_storage: read_entries(data, "sessionStorage"),
                },
            )
        },
    }
}

/// The JavaScript that stores an entry.
pub open spec fn store_script(storage: Chars, entry: EntryView) -> Chars {
    storage + ".setItem("@ + interop::json_quote(entry.name) + ", "@ + interop::json_quote(
        entry.value,
    ) + ")"@
}

/// The JavaScript that stores an entry.
pub fn store_expression(storage: &str, entry: &StorageEntry) -> (r: String)
    ensures
        r@ == store_script(storage@, entry.deep_view()),
{
    storage.to_owned().concat(".setItem(").concat(quote(entry.name.as_str()).as_str()).concat(
        ", ",
    ).concat(quote(entry.value.as_str()).as_str()).concat(")")
}

/// Character of a six-bit number in Base64.
pub open spec fn base64_char(n: int) -> char {
    if n < 26 {
        ('A' as int + n) as char
    } else if n < 52 {
        ('a' as int + n - 26) as char
    } else if n < 62 {
        ('0' as int + n - 52) as char
    } else if n == 62 {
        '+'
    } else {
        '/'
    }
}

/// Bytes in Base64 with padding: three bytes are four characters.
pub open spec fn base64_text(bytes: Seq<u8>) -> Chars
    decreases bytes.len(),
{
    if bytes.len() == 0 {
        Seq::empty()
    } else if bytes.len() == 1 {
        let n = bytes[0] as int;
        seq![base64_char(n / 4), base64_char(n % 4 * 16), '=', '=']
    } else if bytes.len() == 2 {
        let n = bytes[0] as int * 256 + bytes[1] as int;
        seq![
            base64_char(n / 1024),
            base64_char(n / 16 % 64),
            base64_char(n % 16 * 4),
            '=',
        ]
    } else {
        let n = bytes[0] as int * 65536 + bytes[1] as int * 256 + bytes[2] as int;
        seq![
            base64_char(n / 262144),
            base64_char(n / 4096 % 64),
            base64_char(n / 64 % 64),
            base64_char(n % 64),
        ] + base64_text(bytes.skip(3))
    }
}

/// The standard engine of `base64` writes bytes with the standard alphabet and
/// with padding. It panics where the length of the text is no machine number.
#[verifier::external_body]
fn encode_base64(bytes: &[u8]) -> (r: String)
    requires
        bytes@.len() <= usize::MAX / 2,
    ensures
        r@ == base64_text(bytes@),
{
    base64::Engine::encode(&base64::engine::general_purpose::STANDARD, bytes)
}

/// The page that is shown in place of an origin: blank, and with an icon of its
/// own, so that none is asked for.
pub const BLANK_PAGE: &'static str = "<html><head><link rel=\"icon\" href=\"data:,\"></head></html>";

/// The response that brings the blank page.
pub open spec fn blank_response() -> Chars {
    "HTTP/1.1 200 OK\r\nContent-Type: text/html\r\nContent-Length: "@ + text::decimal(
        text::utf8_len(BLANK_PAGE@),
    ) + "\r\nConnection: close\r\n\r\n"@ + BLANK_PAGE@
}

/// The response that brings the blank page, in Base64.
pub open spec fn blank_base64() -> Chars {
    base64_text(vstd::utf8::encode_utf8(blank_response()))
}

proof fn lemma_blank_short()
    ensures
        vstd::utf8::encode_utf8(blank_response()).len() <= 10_000,
{
    reveal_strlit("<html><head><link rel=\"icon\" href=\"data:,\"></head></html>");
    reveal_strlit("HTTP/1.1 200 OK\r\nContent-Type: text/html\r\nContent-Length: ");
    reveal_strlit("\r\nConnection: close\r\n\r\n");
    let n = text::utf8_len(BLANK_PAGE@);
    text::lemma_len_max(BLANK_PAGE@);
    reveal_with_fuel(text::decimal, 4);
    assert(text::decimal(n).len() <= 3);
    text::lemma_len_max(blank_response());
    text::lemma_utf8_len(blank_response());
}

/// The response that brings the blank page, in Base64.
pub fn blank_html_response_b64() -> (r: String)
    ensures
        r@ == blank_base64(),
{
    let length = byte_len(BLANK_PAGE);
    let response = "HTTP/1.1 200 OK\r\nContent-Type: text/html\r\nContent-Length: ".to_owned().concat(
        u64_text(length as u64).as_str(),
    ).concat("\r\nConnection: close\r\n\r\n").concat(BLANK_PAGE);
    proof {
        lemma_blank_short();
    }
    encode_base64(response.as_str().as_bytes())
}

} // verus!
