//! The decisions of the connection editor: key tooltips, the key search
//! dialog, the keys that a search finds, and the data items it saves.
use vstd::prelude::*;

use crate::settings::{
    WG_P2P_VPN_ENDPOINT_ADDRESS, WG_P2P_VPN_ENDPOINT_METHOD, WG_P2P_VPN_INTERFACE_NAME,
    WG_P2P_VPN_LOCAL_NAME, WG_P2P_VPN_LOCAL_PORT, WG_P2P_VPN_LOCAL_PRIVATE_KEY,
    WG_P2P_VPN_LOCAL_PUBLIC_KEY, WG_P2P_VPN_REMOTE_PUBLIC_KEY,
};
use crate::text::{escape_markup, escaped, trim, trimmed};

verus! {

/// The random art (OpenSSL's "drunken bishop" picture, ASCII frame) of a fingerprint.
pub uninterp spec fn drunken_bishop_art(fingerprint: Seq<u8>) -> Seq<char>;

/// `drunken_bishop::drunken_bishop` in OpenSSL's mode with an ASCII frame:
/// its result is named and depends on the fingerprint alone.
#[verifier::external_body]
fn random_art(fingerprint: &[u8]) -> (r: String)
    ensures
        r@ == drunken_bishop_art(fingerprint@),
{
    drunken_bishop::drunken_bishop(
        fingerprint,
        drunken_bishop::OPENSSL,
        drunken_bishop::BoxMode::Ascii,
    )
}

/// The tooltip markup that shows the random art `art` in a monospace font.
pub open spec fn art_markup(art: Seq<char>) -> Seq<char> {
    "<tt>"@ + escaped(trimmed(art)) + "</tt>"@
}

/// The tooltip markup of a random art: trimmed, escaped, in `<tt>`.
pub fn art_tooltip(art: &str) -> (r: String)
    ensures
        r@ == art_markup(art@),
{
    let mut r = String::from_str("<tt>");
    let escaped_art = escape_markup(trim(art));
    r.append(escaped_art.as_str());
    r.append("</tt>");
    r
}

/// The tooltip of a key entry whose text decodes to `key`: a key of 32 bytes
/// shows its random art, any other `invalid_message`.
pub fn key_tooltip(key: &[u8], invalid_message: &str) -> (r: String)
    ensures
        key@.len() != 32 ==> r@ == invalid_message@,
        key@.len() == 32 ==> r@ == art_markup(drunken_bishop_art(key@)),
{
    if key.len() != 32 {
        String::from_str(invalid_message)
    } else {
        let art = random_art(key);
        art_tooltip(art.as_str())
    }
}

/// What the key search dialog does on a response.
#[derive(Debug)]
pub enum FindAction {
    /// Close the dialog.
    Hide,
    /// Take this key as the remote public key and close the dialog.
    UseKey(String),
    /// Search for the keys published under this name.
    Search(String),
}

/// Whether `name` is the last name searched for.
pub open spec fn same_search_term(latest_search_term: Option<String>, name: String) -> bool {
    latest_search_term matches Some(t) && t@ == name@
}

/// The response of the key search dialog: a cancel closes it; a name that was
/// the last one searched for, with a key selected, takes that key; otherwise
/// the name is searched for.
pub fn find_response(
    cancelled: bool,
    name: String,
    latest_search_term: &Option<String>,
    selected_key: Option<String>,
) -> (r: FindAction)
    ensures
        cancelled ==> r is Hide,
        !cancelled && same_search_term(*latest_search_term, name) && selected_key is Some ==> r
            == FindAction::UseKey(selected_key->0),
        !cancelled && !(same_search_term(*latest_search_term, name) && selected_key is Some) ==> r
            == FindAction::Search(name),
{
    if cancelled {
        return FindAction::Hide;
    }
    let same_term = match latest_search_term {
        Some(t) => t.eq(&name),
        None => false,
    };
    if same_term {
        if let Some(key) = selected_key {
            return FindAction::UseKey(key);
        }
    }
    FindAction::Search(name)
}

/// The key that a published record carries: its last 32 of 64 bytes.
pub open spec fn record_key(record: Seq<u8>) -> Seq<u8> {
    record.subrange(32, 64)
}

/// A published record is accepted when it has 64 bytes and its first 32 are
/// the SHA-256 digest of its key, `digest` being that digest where one was taken.
pub open spec fn record_accepted(record: Seq<u8>, digest: Option<Seq<u8>>) -> bool {
    record.len() == 64 && digest == Some(record.subrange(0, 32))
}

/// The keys of the accepted records, in order.
pub open spec fn accepted_keys(records: Seq<Seq<u8>>, digests: Seq<Option<Seq<u8>>>) -> Seq<
    Seq<u8>,
>
    decreases records.len(),
{
    if records.len() == 0 {
        Seq::empty()
    } else {
        let rest = accepted_keys(records.drop_last(), digests.take(records.len() - 1));
        if record_accepted(records.last(), digests[records.len() - 1]) {
            rest.push(record_key(records.last()))
        } else {
            rest
        }
    }
}

/// Every key that a search accepts has 32 bytes and is the key of a published
/// record, at some position, whose digest matched; no more keys are
/// accepted than records were found.
pub proof fn lemma_accepted_keys_come_from_records(
    records: Seq<Seq<u8>>,
    digests: Seq<Option<Seq<u8>>>,
)
    requires
        digests.len() == records.len(),
    ensures
        accepted_keys(records, digests).len() <= records.len(),
        forall|j: int|
            0 <= j < accepted_keys(records, digests).len() ==> {
                &&& (#[trigger] accepted_keys(records, digests)[j]).len() == 32
                &&& exists|i: int|
                    0 <= i < records.len() && record_accepted(records[i], digests[i])
                        && accepted_keys(records, digests)[j] == record_key(records[i])
            },
    decreases records.len(),
{
    if records.len() > 0 {
        let n = records.len() - 1;
        let rs = records.drop_last();
        let ds = digests.take(n);
        lemma_accepted_keys_come_from_records(rs, ds);
        let keys = accepted_keys(records, digests);
        let rest = accepted_keys(rs, ds);
        assert forall|j: int| 0 <= j < keys.len() implies {
            &&& (#[trigger] keys[j]).len() == 32
            &&& exists|i: int|
                0 <= i < records.len() && record_accepted(records[i], digests[i]) && keys[j]
                    == record_key(records[i])
        } by {
            if j < rest.len() {
                assert(keys[j] == rest[j]);
                let i = choose|i: int|
                    0 <= i < rs.len() && record_accepted(rs[i], ds[i]) && rest[j] == record_key(
                        rs[i],
                    );
                assert(records[i] == rs[i]);
                assert(digests[i] == ds[i]);
            } else {
                assert(keys[j] == record_key(records[n]));
                assert(record_accepted(records[n], digests[n]));
            }
        }
    }
}

/// The number of the first `n` records that pass.
pub open spec fn accepted_count(records: Seq<Seq<u8>>, digests: Seq<Option<Seq<u8>>>, n: int) -> nat
    decreases n,
{
    if n <= 0 {
        0
    } else {
        accepted_count(records, digests, n - 1) + if record_accepted(records[n - 1], digests[n - 1]) {
            1nat
        } else {
            0nat
        }
    }
}

proof fn lemma_accepted_count_prefix(
    records: Seq<Seq<u8>>,
    digests: Seq<Option<Seq<u8>>>,
    r2: Seq<Seq<u8>>,
    d2: Seq<Option<Seq<u8>>>,
    n: int,
)
    requires
        0 <= n <= records.len(),
        n <= r2.len(),
        n <= digests.len(),
        n <= d2.len(),
        forall|i: int| 0 <= i < n ==> records[i] == r2[i] && digests[i] == d2[i],
    ensures
        accepted_count(records, digests, n) == accepted_count(r2, d2, n),
    decreases n,
{
    if n > 0 {
        lemma_accepted_count_prefix(records, digests, r2, d2, n - 1);
    }
}

proof fn lemma_accepted_count_mono(records: Seq<Seq<u8>>, digests: Seq<Option<Seq<u8>>>, a: int, b: int)
    requires
        0 <= a <= b,
    ensures
        accepted_count(records, digests, a) <= accepted_count(records, digests, b),
    decreases b - a,
{
    if a < b {
        lemma_accepted_count_mono(records, digests, a, b - 1);
    }
}

/// Every published record that passes contributes its key, in the order of
/// the records: the key of a passing record stands at the position given by the
/// number of passing records before it, and there are as many keys as passing
/// records.
pub proof fn lemma_accepted_keys_complete(records: Seq<Seq<u8>>, digests: Seq<Option<Seq<u8>>>)
    requires
        digests.len() == records.len(),
    ensures
        accepted_keys(records, digests).len() == accepted_count(records, digests, records.len() as int),
        forall|i: int|
            0 <= i < records.len() && record_accepted(#[trigger] records[i], digests[i])
                ==> accepted_keys(records, digests)[accepted_count(records, digests, i) as int]
                == record_key(records[i]),
    decreases records.len(),
{
    if records.len() > 0 {
        let n = records.len() - 1;
        let rs = records.drop_last();
        let ds = digests.take(n);
        lemma_accepted_keys_complete(rs, ds);
        assert forall|i: int| 0 <= i < n implies records[i] == rs[i] && digests[i] == ds[i] by {}
        lemma_accepted_count_prefix(records, digests, rs, ds, n);
        assert forall|i: int|
            0 <= i < records.len() && record_accepted(#[trigger] records[i], digests[i])
                implies accepted_keys(records, digests)[accepted_count(records, digests, i) as int]
                == record_key(records[i]) by {
            if i < n {
                lemma_accepted_count_prefix(records, digests, rs, ds, i);
                lemma_accepted_count_mono(rs, ds, i + 1, n);
                assert(rs[i] == records[i] && ds[i] == digests[i]);
            }
        }
    }
}

/// The bytes of each vector.
pub open spec fn bytes_views(v: Seq<Vec<u8>>) -> Seq<Seq<u8>> {
    v.map_values(|b: Vec<u8>| b@)
}

/// The bytes of each digest that was taken.
pub open spec fn digest_views(v: Seq<Option<Vec<u8>>>) -> Seq<Option<Seq<u8>>> {
    v.map_values(
        |d: Option<Vec<u8>>|
            match d {
                Some(b) => Some(b@),
                None => None,
            },
    )
}

/// The part of a published record whose digest decides on it: its key, when
/// the record has 64 bytes.
pub fn key_to_digest(record: &Vec<u8>) -> (r: Option<Vec<u8>>)
    ensures
        record@.len() == 64 ==> (r matches Some(k) && k@ == record_key(record@)),
        record@.len() != 64 ==> r is None,
{
    if record.len() != 64 {
        return None;
    }
    let mut k: Vec<u8> = Vec::new();
    let mut i: usize = 32;
    while i < 64
        invariant
            32 <= i <= 64,
            record@.len() == 64,
            k@ == record@.subrange(32, i as int),
        decreases 64 - i,
    {
        k.push(record[i]);
        assert(k@ =~= record@.subrange(32, i + 1));
        i = i + 1;
    }
    Some(k)
}

/// Whether a digest equals the first 32 bytes of a record of 64.
fn digest_matches(record: &Vec<u8>, digest: &Vec<u8>) -> (r: bool)
    requires
        record@.len() == 64,
    ensures
        r == (digest@ == record@.subrange(0, 32)),
{
    if digest.len() != 32 {
        return false;
    }
    let mut i: usize = 0;
    while i < 32
        invariant
            i <= 32,
            record@.len() == 64,
            digest@.len() == 32,
            forall|j: int| 0 <= j < i ==> digest@[j] == record@[j],
        decreases 32 - i,
    {
        if digest[i] != record[i] {
            assert(digest@[i as int] != record@.subrange(0, 32)[i as int]);
            return false;
        }
        i = i + 1;
    }
    assert(digest@ =~= record@.subrange(0, 32));
    true
}

/// The keys of the published records whose digest matches, in order.
/// `digests[i]` is the SHA-256 digest of the key of `records[i]`, where
/// `key_to_digest` gave one.
pub fn accepted_records(records: &Vec<Vec<u8>>, digests: &Vec<Option<Vec<u8>>>) -> (r: Vec<Vec<u8>>)
    requires
        digests@.len() == records@.len(),
    ensures
        bytes_views(r@) == accepted_keys(bytes_views(records@), digest_views(digests@)),
        r@.len() == accepted_count(
            bytes_views(records@),
            digest_views(digests@),
            records@.len() as int,
        ),
        forall|i: int|
            0 <= i < records@.len() && record_accepted(
                #[trigger] bytes_views(records@)[i],
                digest_views(digests@)[i],
            ) ==> r@[accepted_count(bytes_views(records@), digest_views(digests@), i) as int]@
                == record_key(records@[i]@),
{
    proof {
        lemma_accepted_keys_complete(bytes_views(records@), digest_views(digests@));
    }
    let mut out: Vec<Vec<u8>> = Vec::new();
    let mut i: usize = 0;
    while i < records.len()
        invariant
            i <= records@.len(),
            digests@.len() == records@.len(),
            bytes_views(out@) == accepted_keys(
                bytes_views(records@).take(i as int),
                digest_views(digests@).take(i as int),
            ),
        decreases records@.len() - i,
    {
        let record = &records[i];
        let ghost rs = bytes_views(records@).take(i + 1);
        let ghost ds = digest_views(digests@).take(i + 1);
        proof {
            assert(rs.drop_last() =~= bytes_views(records@).take(i as int));
            assert(ds.take(rs.len() - 1) =~= digest_views(digests@).take(i as int));
            assert(rs.last() == record@);
        }
        let accept = if record.len() == 64 {
            match &digests[i] {
                Some(d) => digest_matches(record, d),
                None => false,
            }
        } else {
            false
        };
        assert(accept == record_accepted(rs.last(), ds[rs.len() - 1]));
        if accept {
            let key = key_to_digest(record);
            match key {
                Some(k) => {
                    let ghost before = bytes_views(out@);
                    out.push(k);
                    assert(bytes_views(out@) =~= before.push(record_key(record@)));
                },
                None => {},
            }
        }
        i = i + 1;
    }
    assert(bytes_views(records@).take(records@.len() as int) =~= bytes_views(records@));
    assert(digest_views(digests@).take(records@.len() as int) =~= digest_views(digests@));
    proof {
        let rs = bytes_views(records@);
        let ds = digest_views(digests@);
        assert forall|i: int|
            0 <= i < records@.len() && record_accepted(#[trigger] rs[i], ds[i]) implies out@[
                accepted_count(rs, ds, i) as int]@ == record_key(records@[i]@) by {
            lemma_accepted_count_mono(rs, ds, i + 1, records@.len() as int);
            assert(bytes_views(out@)[accepted_count(rs, ds, i) as int] == out@[accepted_count(
                rs,
                ds,
                i,
            ) as int]@);
        }
    }
    out
}

/// What a finished key search shows.
#[derive(Debug)]
pub enum KeySearch {
    /// The search failed; the status line shows this text.
    Failed(String),
    /// No record passed; the status line says that no key was found.
    NoKeys,
    /// These keys passed, in order: the dialog lists them.
    Found(Vec<Vec<u8>>),
}

/// The status text of a search that found no key.
pub const NO_KEYS_STATUS: &'static str = "No public keys found!";

/// The outcome of a key search: its error, described by `error`, or the
/// published records with the digests of their keys.
pub fn keys_found(result: Result<&Vec<Vec<u8>>, &str>, digests: &Vec<Option<Vec<u8>>>) -> (r:
    KeySearch)
    requires
        result matches Ok(records) ==> digests@.len() == records@.len(),
    ensures
        result matches Err(e) ==> (r matches KeySearch::Failed(t) && t@ == "Error: "@ + e@),
        result matches Ok(records) ==> {
            let keys = accepted_keys(bytes_views(records@), digest_views(digests@));
            &&& keys.len() == 0 ==> r is NoKeys
            &&& keys.len() > 0 ==> (r matches KeySearch::Found(k) && bytes_views(k@) == keys)
        },
{
    match result {
        Err(e) => {
            let mut t = String::from_str("Error: ");
            t.append(e);
            KeySearch::Failed(t)
        },
        Ok(records) => {
            let keys = accepted_records(records, digests);
            if keys.len() == 0 {
                KeySearch::NoKeys
            } else {
                KeySearch::Found(keys)
            }
        },
    }
}

/// The texts of the editor's entries; `None` where an entry has no text.
pub struct EditorFields {
    pub local_name: Option<String>,
    pub local_port: Option<String>,
    pub endpoint_address: Option<String>,
    pub interface_name: Option<String>,
    pub local_public_key: Option<String>,
    pub remote_public_key: Option<String>,
    pub local_private_key: Option<String>,
}

/// A text, or the empty text where there is none.
pub open spec fn text_or_empty(t: Option<String>) -> Seq<char> {
    match t {
        Some(s) => s@,
        None => Seq::empty(),
    }
}

/// A text, or the empty text where there is none.
fn or_empty(t: &Option<String>) -> (r: String)
    ensures
        r@ == text_or_empty(*t),
{
    match t {
        Some(s) => s.clone(),
        None => String::new(),
    }
}

/// The endpoint method that the editor saves.
pub const ENDPOINT_METHOD_MANUAL: &'static str = "manual";

/// A data item as key and value.
pub open spec fn item_view(item: (String, String)) -> (Seq<char>, Seq<char>) {
    (item.0@, item.1@)
}

/// The data items that the editor saves, in order: each entry's text, the
/// empty text where it has none, and the endpoint method "manual".
pub open spec fn connection_items_spec(f: EditorFields) -> Seq<(Seq<char>, Seq<char>)> {
    seq![
        (WG_P2P_VPN_LOCAL_NAME@, text_or_empty(f.local_name)),
        (WG_P2P_VPN_LOCAL_PORT@, text_or_empty(f.local_port)),
        (WG_P2P_VPN_ENDPOINT_METHOD@, ENDPOINT_METHOD_MANUAL@),
        (WG_P2P_VPN_ENDPOINT_ADDRESS@, text_or_empty(f.endpoint_address)),
        (WG_P2P_VPN_REMOTE_PUBLIC_KEY@, text_or_empty(f.remote_public_key)),
        (WG_P2P_VPN_INTERFACE_NAME@, text_or_empty(f.interface_name)),
        (WG_P2P_VPN_LOCAL_PUBLIC_KEY@, text_or_empty(f.local_public_key)),
        (WG_P2P_VPN_LOCAL_PRIVATE_KEY@, text_or_empty(f.local_private_key)),
    ]
}

/// The editor saves each data item once: the keys of the items it writes are
/// pairwise different.
pub proof fn lemma_connection_item_keys_distinct(f: EditorFields)
    ensures
        connection_items_spec(f).len() == 8,
        forall|i: int, j: int|
            0 <= i < j < 8 ==> (#[trigger] connection_items_spec(f)[i]).0 != (
            #[trigger] connection_items_spec(f)[j]).0,
{
    reveal_strlit("local_name");
    reveal_strlit("local_port");
    reveal_strlit("endpoint_method");
    reveal_strlit("endpoint_address");
    reveal_strlit("remote_public_key");
    reveal_strlit("interface_name");
    reveal_strlit("local_public_key");
    reveal_strlit("local_private_key");
    let items = connection_items_spec(f);
    assert(items[0].0[0] == 'l' && items[0].0[6] == 'n');
    assert(items[1].0[0] == 'l' && items[1].0[6] == 'p' && items[1].0.len() == 10);
    assert(items[2].0[0] == 'e' && items[2].0[9] == 'm');
    assert(items[3].0[0] == 'e' && items[3].0[9] == 'a');
    assert(items[4].0[0] == 'r');
    assert(items[5].0[0] == 'i');
    assert(items[6].0[0] == 'l' && items[6].0[6] == 'p' && items[6].0.len() == 16);
    assert(items[7].0[0] == 'l' && items[7].0[6] == 'p' && items[7].0[7] == 'r');
    assert(items[6].0[7] == 'u');
}

/// The data items that the editor writes into the connection, in the order
/// in which it writes them.
pub fn connection_items(fields: &EditorFields) -> (r: Vec<(String, String)>)
    ensures
        r@.map_values(|item: (String, String)| item_view(item)) == connection_items_spec(*fields),
{
    let mut items: Vec<(String, String)> = Vec::new();
    items.push((String::from_str(WG_P2P_VPN_LOCAL_NAME), or_empty(&fields.local_name)));
    items.push((String::from_str(WG_P2P_VPN_LOCAL_PORT), or_empty(&fields.local_port)));
    items.push(
        (String::from_str(WG_P2P_VPN_ENDPOINT_METHOD), String::from_str(ENDPOINT_METHOD_MANUAL)),
    );
    items.push(
        (String::from_str(WG_P2P_VPN_ENDPOINT_ADDRESS), or_empty(&fields.endpoint_address)),
    );
    items.push(
        (String::from_str(WG_P2P_VPN_REMOTE_PUBLIC_KEY), or_empty(&fields.remote_public_key)),
    );
    items.push((String::from_str(WG_P2P_VPN_INTERFACE_NAME), or_empty(&fields.interface_name)));
    items.push(
        (String::from_str(WG_P2P_VPN_LOCAL_PUBLIC_KEY), or_empty(&fields.local_public_key)),
    );
    items.push(
        (String::from_str(WG_P2P_VPN_LOCAL_PRIVATE_KEY), or_empty(&fields.local_private_key)),
    );
    assert(items@.map_values(|item: (String, String)| item_view(item)) =~= connection_items_spec(
        *fields,
    ));
    items
}

} // verus!
