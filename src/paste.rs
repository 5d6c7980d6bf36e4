//! The paste store: text and file pastes under content-derived or chosen
//! ids, with view and download counters and eviction of stale pastes.
use vstd::prelude::*;
use crate::assoc::{keys_unique, to_map, lemma_to_map_finite, find_key, lemma_to_map_index, lemma_to_map_absent,
    lemma_push, lemma_update, lemma_remove, lemma_to_map_empty};
use crate::message::{opt_view, opt_ref_view, copy_opt};
use crate::{PASTE_LENGTH_CAP, PASTE_LENGTH_MIN};

verus! {

/// The digest of a text under std's default hasher.
pub uninterp spec fn text_hash_of(s: Seq<char>) -> u64;

/// The digest of a byte string under std's default hasher.
pub uninterp spec fn bytes_hash_of(b: Seq<u8>) -> u64;

/// Relies on std's `BuildHasher::hash_one` with `BuildHasherDefault<DefaultHasher>`:
/// every such hasher starts from the same keys, so the digest depends on the
/// text alone.
#[verifier::external_body]
fn hash_text(s: &str) -> (r: u64)
    ensures
        r == text_hash_of(s@),
{
    let builder = std::hash::BuildHasherDefault::<std::collections::hash_map::DefaultHasher>::default();
    std::hash::BuildHasher::hash_one(&builder, s)
}

/// Relies on std's `BuildHasher::hash_one` with `BuildHasherDefault<DefaultHasher>`:
/// every such hasher starts from the same keys, so the digest (of the length,
/// then the bytes) depends on the bytes alone.
#[verifier::external_body]
fn hash_bytes(b: &Vec<u8>) -> (r: u64)
    ensures
        r == bytes_hash_of(b@),
{
    let builder = std::hash::BuildHasherDefault::<std::collections::hash_map::DefaultHasher>::default();
    std::hash::BuildHasher::hash_one(&builder, b)
}

/// The decimal digit for `d`.
pub open spec fn digit_char(d: nat) -> char {
    if d == 0 {
        '0'
    } else if d == 1 {
        '1'
    } else if d == 2 {
        '2'
    } else if d == 3 {
        '3'
    } else if d == 4 {
        '4'
    } else if d == 5 {
        '5'
    } else if d == 6 {
        '6'
    } else if d == 7 {
        '7'
    } else if d == 8 {
        '8'
    } else {
        '9'
    }
}

/// `n` written in decimal, without leading zeros.
pub open spec fn decimal(n: nat) -> Seq<char>
    decreases n,
{
    if n < 10 {
        seq![digit_char(n)]
    } else {
        decimal(n / 10).push(digit_char(n % 10))
    }
}

/// The decimal digit for `d`, as text.
fn digit_str(d: u64) -> (r: &'static str)
    requires
        d < 10,
    ensures
        r@ == seq![digit_char(d as nat)],
{
    if d == 0 {
        proof { reveal_strlit("0"); }
        "0"
    } else if d == 1 {
        proof { reveal_strlit("1"); }
        "1"
    } else if d == 2 {
        proof { reveal_strlit("2"); }
        "2"
    } else if d == 3 {
        proof { reveal_strlit("3"); }
        "3"
    } else if d == 4 {
        proof { reveal_strlit("4"); }
        "4"
    } else if d == 5 {
        proof { reveal_strlit("5"); }
        "5"
    } else if d == 6 {
        proof { reveal_strlit("6"); }
        "6"
    } else if d == 7 {
        proof { reveal_strlit("7"); }
        "7"
    } else if d == 8 {
        proof { reveal_strlit("8"); }
        "8"
    } else {
        proof { reveal_strlit("9"); }
        "9"
    }
}

/// `n` written in decimal.
pub fn decimal_string(n: u64) -> (r: String)
    ensures
        r@ == decimal(n as nat),
    decreases n,
{
    let digit = digit_str(n % 10);
    if n < 10 {
        String::from_str(digit)
    } else {
        let mut s = decimal_string(n / 10);
        s.append(digit);
        s
    }
}

/// What a paste holds: a file on disk, by path, or text.
pub enum PasteContents {
    File(String),
    PlainText(String),
}

pub enum PasteContentsView {
    File(Seq<char>),
    PlainText(Seq<char>),
}

impl View for PasteContents {
    type V = PasteContentsView;

    open spec fn view(&self) -> PasteContentsView {
        match self {
            PasteContents::File(p) => PasteContentsView::File(p@),
            PasteContents::PlainText(t) => PasteContentsView::PlainText(t@),
        }
    }
}

/// A paste with who posted it and when (seconds since the Unix epoch), and
/// how often and when it was last viewed and downloaded.
pub struct Paste {
    pub content: PasteContents,
    pub post_time: u64,
    pub ip_of_poster: String,
    pub view_count: u32,
    pub download_count: u32,
    pub time_of_last_download: u64,
    pub time_of_last_view: u64,
    pub login_cookie_of_poster: Option<String>,
}

/// What a paste holds, as values.
pub struct PasteView {
    pub content: PasteContentsView,
    pub post_time: u64,
    pub ip_of_poster: Seq<char>,
    pub view_count: u32,
    pub download_count: u32,
    pub time_of_last_download: u64,
    pub time_of_last_view: u64,
    pub login_cookie_of_poster: Option<Seq<char>>,
}

impl View for Paste {
    type V = PasteView;

    open spec fn view(&self) -> PasteView {
        PasteView {
            content: self.content@,
            post_time: self.post_time,
            ip_of_poster: self.ip_of_poster@,
            view_count: self.view_count,
            download_count: self.download_count,
            time_of_last_download: self.time_of_last_download,
            time_of_last_view: self.time_of_last_view,
            login_cookie_of_poster: opt_view(self.login_cookie_of_poster),
        }
    }
}

/// A paste of `content` just posted at `now`: nothing viewed or downloaded yet.
pub open spec fn fresh_paste(content: PasteContentsView, ip: Seq<char>, login: Option<Seq<char>>, now: u64) -> PasteView {
    PasteView {
        content,
        post_time: now,
        ip_of_poster: ip,
        view_count: 0,
        download_count: 0,
        time_of_last_download: now,
        time_of_last_view: now,
        login_cookie_of_poster: login,
    }
}

/// `p` after a view at `now`.
pub open spec fn viewed(p: PasteView, now: u64) -> PasteView {
    PasteView {
        view_count: if p.view_count < u32::MAX { (p.view_count + 1) as u32 } else { u32::MAX },
        time_of_last_view: now,
        ..p
    }
}

/// `p` after a download at `now`.
pub open spec fn downloaded(p: PasteView, now: u64) -> PasteView {
    PasteView {
        download_count: if p.download_count < u32::MAX { (p.download_count + 1) as u32 } else { u32::MAX },
        time_of_last_download: now,
        ..p
    }
}

impl Paste {
    /// A text paste posted by `ip` at `now`.
    pub fn new(text: String, ip: &String, login: Option<String>, now: u64) -> (r: Paste)
        ensures
            r@ == fresh_paste(PasteContentsView::PlainText(text@), ip@, opt_view(login), now),
    {
        Paste {
            content: PasteContents::PlainText(text),
            post_time: now,
            ip_of_poster: ip.clone(),
            view_count: 0,
            download_count: 0,
            time_of_last_download: now,
            time_of_last_view: now,
            login_cookie_of_poster: login,
        }
    }

    /// A file paste, stored at `file_path`, posted by `ip` at `now`.
    pub fn new_file_paste(file_path: String, ip: &String, login: Option<String>, now: u64) -> (r: Paste)
        ensures
            r@ == fresh_paste(PasteContentsView::File(file_path@), ip@, opt_view(login), now),
    {
        Paste {
            content: PasteContents::File(file_path),
            post_time: now,
            ip_of_poster: ip.clone(),
            view_count: 0,
            download_count: 0,
            time_of_last_download: now,
            time_of_last_view: now,
            login_cookie_of_poster: login,
        }
    }

    /// A copy of this paste.
    pub fn copy(&self) -> (r: Paste)
        ensures
            r@ == self@,
    {
        let content = match &self.content {
            PasteContents::File(p) => PasteContents::File(p.clone()),
            PasteContents::PlainText(t) => PasteContents::PlainText(t.clone()),
        };
        Paste {
            content,
            post_time: self.post_time,
            ip_of_poster: self.ip_of_poster.clone(),
            view_count: self.view_count,
            download_count: self.download_count,
            time_of_last_download: self.time_of_last_download,
            time_of_last_view: self.time_of_last_view,
            login_cookie_of_poster: copy_opt(&self.login_cookie_of_poster),
        }
    }
}

/// The paste form: the text and, for verified visitors, a chosen id.
pub struct NewPaste {
    pub text: String,
    pub custom_url: Option<String>,
}

/// Why a paste was not stored.
#[derive(Debug, Clone, Copy, PartialEq, Eq, Structural)]
pub enum PasteError {
    TooLarge,
    TooShort,
    AlreadyExists,
}

/// The number of bytes of `s` in UTF-8.
pub open spec fn byte_len(s: Seq<char>) -> nat {
    vstd::utf8::encode_utf8(s).len()
}

/// Why a text paste of `content` is refused, if it is: privileged posters
/// skip the length bounds.
pub open spec fn text_paste_error(content: Seq<char>, is_privileged: bool) -> Option<PasteError> {
    if is_privileged {
        None
    } else if byte_len(content) > PASTE_LENGTH_CAP {
        Some(PasteError::TooLarge)
    } else if byte_len(content) < PASTE_LENGTH_MIN {
        Some(PasteError::TooShort)
    } else {
        None
    }
}

/// The id a text paste gets: the alias, for a privileged poster whose alias
/// is free; the content-derived id otherwise.
pub open spec fn text_paste_id(
    m: Map<Seq<char>, PasteView>,
    default_id: Seq<char>,
    alias: Option<Seq<char>>,
    is_privileged: bool,
) -> Seq<char> {
    match alias {
        Some(a) => if is_privileged && !m.contains_key(a) {
            a
        } else {
            default_id
        },
        None => default_id,
    }
}

/// Whether `p` was last viewed more than `max_age` seconds before `now`.
pub open spec fn is_stale(p: PasteView, max_age: u64, now: u64) -> bool {
    now >= p.time_of_last_view && now - p.time_of_last_view > max_age
}

/// `m` without its stale pastes.
pub open spec fn fresh_only(m: Map<Seq<char>, PasteView>, max_age: u64, now: u64) -> Map<Seq<char>, PasteView> {
    Map::new(|k: Seq<char>| m.contains_key(k) && !is_stale(m[k], max_age, now), |k: Seq<char>| m[k])
}

pub open spec fn paste_entry_view(e: (String, Paste)) -> (Seq<char>, PasteView) {
    (e.0@, e.1@)
}

/// All pastes, by id.
pub struct PasteStore {
    entries: Vec<(String, Paste)>,
}

impl View for PasteStore {
    type V = Map<Seq<char>, PasteView>;

    closed spec fn view(&self) -> Map<Seq<char>, PasteView> {
        to_map(self.entries())
    }
}

impl PasteStore {
    /// The pastes in the order in which their ids were first used.
    pub closed spec fn entries(&self) -> Seq<(Seq<char>, PasteView)> {
        self.entries@.map_values(|e: (String, Paste)| paste_entry_view(e))
    }

    #[verifier::type_invariant]
    spec fn well_formed(&self) -> bool {
        keys_unique(self.entries())
    }

    /// An empty store.
    pub fn new() -> (r: Self)
        ensures
            r@ == Map::<Seq<char>, PasteView>::empty(),
    {
        let r = PasteStore { entries: Vec::new() };
        proof {
            lemma_to_map_empty(r.entries());
        }
        r
    }

    /// The store holds finitely many records.
    pub proof fn lemma_dom_finite(&self)
        ensures
            self@.dom().finite(),
    {
        lemma_to_map_finite(self.entries());
    }

    /// All pastes with their ids.
    pub fn get_entries(&self) -> (r: &Vec<(String, Paste)>)
        ensures
            r@.map_values(|e: (String, Paste)| paste_entry_view(e)) == self.entries(),
            self@ == to_map(self.entries()),
            self@.dom().finite(),
    {
        proof {
            lemma_to_map_finite(self.entries());
        }
        &self.entries
    }

    fn index_of(&self, id: &String) -> (r: Option<usize>)
        ensures
            r matches Some(i) ==> i < self.entries().len() && self.entries()[i as int].0 == id@
                && self@.contains_key(id@) && self@[id@] == self.entries()[i as int].1,
            r is None ==> !self@.contains_key(id@),
    {
        proof {
            use_type_invariant(self);
        }
        let r = find_key(&self.entries, id);
        proof {
            match r {
                Some(i) => {
                    lemma_to_map_index(self.entries(), i as int);
                },
                None => {
                    assert forall|j: int| 0 <= j < self.entries().len() implies #[trigger] self.entries()[j].0 != id@ by {
                        assert(self.entries()[j] == paste_entry_view(self.entries@[j]));
                    }
                    lemma_to_map_absent(self.entries(), id@);
                },
            }
        }
        r
    }

    /// Whether some paste has id `id`.
    pub fn contains(&self, id: &String) -> (r: bool)
        ensures
            r == self@.contains_key(id@),
    {
        self.index_of(id).is_some()
    }

    /// The paste with id `id`, without counting a view.
    pub fn get(&self, id: &String) -> (r: Option<&Paste>)
        ensures
            r is Some <==> self@.contains_key(id@),
            r matches Some(p) ==> p@ == self@[id@],
    {
        match self.index_of(id) {
            Some(i) => Some(&self.entries[i].1),
            None => None,
        }
    }

    /// Stores `paste` under `id`, replacing any paste there.
    pub fn insert(&mut self, id: String, paste: Paste)
        ensures
            final(self)@ == old(self)@.insert(id@, paste@),
    {
        let idx = self.index_of(&id);
        proof {
            use_type_invariant(&*self);
        }
        let mut entries: Vec<(String, Paste)> = Vec::new();
        std::mem::swap(&mut entries, &mut self.entries);
        let ghost before = entries@.map_values(|e: (String, Paste)| paste_entry_view(e));
        let ghost pv = paste@;
        let ghost kv = id@;
        match idx {
            Some(i) => {
                entries.remove(i);
                entries.insert(i, (id, paste));
                proof {
                    assert(entries@.map_values(|e: (String, Paste)| paste_entry_view(e)) =~= before.update(i as int, (before[i as int].0, pv)));
                    lemma_update(before, i as int, pv);
                }
            },
            None => {
                entries.push((id, paste));
                proof {
                    assert(entries@.map_values(|e: (String, Paste)| paste_entry_view(e)) =~= before.push((kv, pv)));
                    lemma_push(before, kv, pv);
                }
            },
        }
        self.entries = entries;
    }

    /// Stores a text paste whose content-derived id is `default_id`. A
    /// privileged poster whose `requested_alias` is free gets the alias as
    /// id; every other request gets `default_id`, replacing any paste there.
    /// Unprivileged content must be within the length bounds.
    pub fn create_text_with_id(
        &mut self,
        default_id: String,
        content: &String,
        poster_ip: &String,
        poster_credential: Option<String>,
        requested_alias: Option<&String>,
        is_privileged: bool,
        now: u64,
    ) -> (r: Result<String, PasteError>)
        ensures
            r is Ok <==> text_paste_error(content@, is_privileged) is None,
            r matches Err(e) ==> text_paste_error(content@, is_privileged) == Some(e) && final(self)@ == old(self)@,
            r matches Ok(id) ==> id@ == text_paste_id(old(self)@, default_id@, opt_ref_view(requested_alias), is_privileged)
                && final(self)@ == old(self)@.insert(id@, fresh_paste(PasteContentsView::PlainText(content@), poster_ip@, opt_view(poster_credential), now)),
    {
        if !is_privileged {
            let len = content.as_str().as_bytes().len();
            if len > PASTE_LENGTH_CAP {
                return Err(PasteError::TooLarge);
            }
            if len < PASTE_LENGTH_MIN {
                return Err(PasteError::TooShort);
            }
        }
        let id = match requested_alias {
            Some(a) => {
                if is_privileged && !self.contains(a) {
                    a.clone()
                } else {
                    default_id
                }
            },
            None => default_id,
        };
        let paste = Paste::new(content.clone(), poster_ip, poster_credential, now);
        self.insert(id.clone(), paste);
        Ok(id)
    }

    /// Stores a text paste under the decimal digest of its content, or under
    /// `requested_alias` for a privileged poster whose alias is free; see
    /// `create_text_with_id`.
    pub fn create_text(
        &mut self,
        content: &String,
        poster_ip: &String,
        poster_credential: Option<String>,
        requested_alias: Option<&String>,
        is_privileged: bool,
        now: u64,
    ) -> (r: Result<String, PasteError>)
        ensures
            r is Ok <==> text_paste_error(content@, is_privileged) is None,
            r matches Err(e) ==> text_paste_error(content@, is_privileged) == Some(e) && final(self)@ == old(self)@,
            r matches Ok(id) ==> id@ == text_paste_id(old(self)@, decimal(text_hash_of(content@) as nat), opt_ref_view(requested_alias), is_privileged)
                && final(self)@ == old(self)@.insert(id@, fresh_paste(PasteContentsView::PlainText(content@), poster_ip@, opt_view(poster_credential), now)),
    {
        let digest = hash_text(content.as_str());
        let default_id = decimal_string(digest);
        self.create_text_with_id(default_id, content, poster_ip, poster_credential, requested_alias, is_privileged, now)
    }

    /// Registers an uploaded file stored at `path` under the id `id`; an
    /// upload whose path was already taken is refused.
    pub fn create_file_with_id(
        &mut self,
        id: String,
        path: String,
        path_exists: bool,
        poster_ip: &String,
        poster_credential: Option<String>,
        now: u64,
    ) -> (r: Result<String, PasteError>)
        ensures
            r is Err <==> path_exists,
            r matches Err(e) ==> e == PasteError::AlreadyExists && final(self)@ == old(self)@,
            r matches Ok(i) ==> i@ == id@ && final(self)@ == old(self)@.insert(id@, fresh_paste(PasteContentsView::File(path@), poster_ip@, opt_view(poster_credential), now)),
    {
        if path_exists {
            return Err(PasteError::AlreadyExists);
        }
        let paste = Paste::new_file_paste(path, poster_ip, poster_credential, now);
        self.insert(id.clone(), paste);
        Ok(id)
    }

    /// Registers an uploaded file with bytes `body`, stored at `path`, under
    /// the decimal digest of its bytes.
    pub fn create_file(
        &mut self,
        path: String,
        path_exists: bool,
        body: &Vec<u8>,
        poster_ip: &String,
        poster_credential: Option<String>,
        now: u64,
    ) -> (r: Result<String, PasteError>)
        ensures
            r is Err <==> path_exists,
            r matches Err(e) ==> e == PasteError::AlreadyExists && final(self)@ == old(self)@,
            r matches Ok(id) ==> id@ == decimal(bytes_hash_of(body@) as nat) && final(self)@ == old(self)@.insert(id@, fresh_paste(PasteContentsView::File(path@), poster_ip@, opt_view(poster_credential), now)),
    {
        let id = decimal_string(hash_bytes(body));
        self.create_file_with_id(id, path, path_exists, poster_ip, poster_credential, now)
    }

    /// Registers an uploaded text file with content `body`, stored at `path`,
    /// under the decimal digest of its text.
    pub fn create_file_from_text(
        &mut self,
        path: String,
        path_exists: bool,
        body: &String,
        poster_ip: &String,
        poster_credential: Option<String>,
        now: u64,
    ) -> (r: Result<String, PasteError>)
        ensures
            r is Err <==> path_exists,
            r matches Err(e) ==> e == PasteError::AlreadyExists && final(self)@ == old(self)@,
            r matches Ok(id) ==> id@ == decimal(text_hash_of(body@) as nat) && final(self)@ == old(self)@.insert(id@, fresh_paste(PasteContentsView::File(path@), poster_ip@, opt_view(poster_credential), now)),
    {
        let id = decimal_string(hash_text(body.as_str()));
        self.create_file_with_id(id, path, path_exists, poster_ip, poster_credential, now)
    }

    /// The paste with id `id`, after counting a view at `now`.
    pub fn view_paste(&mut self, id: &String, now: u64) -> (r: Option<Paste>)
        ensures
            r is Some <==> old(self)@.contains_key(id@),
            r matches Some(p) ==> p@ == viewed(old(self)@[id@], now) && final(self)@ == old(self)@.insert(id@, p@),
            r is None ==> final(self)@ == old(self)@,
    {
        match self.index_of(id) {
            Some(i) => {
                let mut p = self.entries[i].1.copy();
                if p.view_count < u32::MAX {
                    p.view_count = p.view_count + 1;
                }
                p.time_of_last_view = now;
                let r = p.copy();
                self.insert(id.clone(), p);
                Some(r)
            },
            None => None,
        }
    }

    /// The paste with id `id`, after counting a download at `now`.
    pub fn download_paste(&mut self, id: &String, now: u64) -> (r: Option<Paste>)
        ensures
            r is Some <==> old(self)@.contains_key(id@),
            r matches Some(p) ==> p@ == downloaded(old(self)@[id@], now) && final(self)@ == old(self)@.insert(id@, p@),
            r is None ==> final(self)@ == old(self)@,
    {
        match self.index_of(id) {
            Some(i) => {
                let mut p = self.entries[i].1.copy();
                if p.download_count < u32::MAX {
                    p.download_count = p.download_count + 1;
                }
                p.time_of_last_download = now;
                let r = p.copy();
                self.insert(id.clone(), p);
                Some(r)
            },
            None => None,
        }
    }

    /// Removes the paste with id `id`; the result tells whether there was one.
    pub fn delete(&mut self, id: &String) -> (r: bool)
        ensures
            r == old(self)@.contains_key(id@),
            final(self)@ == old(self)@.remove(id@),
    {
        let idx = self.index_of(id);
        proof {
            use_type_invariant(&*self);
        }
        match idx {
            Some(i) => {
                let mut entries: Vec<(String, Paste)> = Vec::new();
                std::mem::swap(&mut entries, &mut self.entries);
                let ghost before = entries@.map_values(|e: (String, Paste)| paste_entry_view(e));
                entries.remove(i);
                proof {
                    assert(entries@.map_values(|e: (String, Paste)| paste_entry_view(e)) =~= before.remove(i as int));
                    lemma_remove(before, i as int);
                }
                self.entries = entries;
                true
            },
            None => {
                assert(old(self)@.remove(id@) =~= old(self)@);
                false
            },
        }
    }

    /// Removes every paste last viewed more than `max_age` seconds before `now`.
    pub fn sweep_stale(&mut self, max_age: u64, now: u64)
        ensures
            final(self)@ == fresh_only(old(self)@, max_age, now),
    {
        proof {
            use_type_invariant(&*self);
        }
        let mut entries: Vec<(String, Paste)> = Vec::new();
        std::mem::swap(&mut entries, &mut self.entries);
        let ghost orig = entries@.map_values(|e: (String, Paste)| paste_entry_view(e));
        let mut kept: Vec<(String, Paste)> = Vec::new();
        proof {
            lemma_to_map_empty(orig.take(0));
            lemma_to_map_empty(kept@.map_values(|e: (String, Paste)| paste_entry_view(e)));
            assert(fresh_only(to_map(orig.take(0)), max_age, now) =~= Map::<Seq<char>, PasteView>::empty());
        }
        while entries.len() > 0
            invariant
                keys_unique(orig),
                entries@.len() <= orig.len(),
                entries@.map_values(|e: (String, Paste)| paste_entry_view(e)) == orig.skip(orig.len() - entries@.len()),
                keys_unique(kept@.map_values(|e: (String, Paste)| paste_entry_view(e))),
                to_map(kept@.map_values(|e: (String, Paste)| paste_entry_view(e)))
                    == fresh_only(to_map(orig.take(orig.len() - entries@.len())), max_age, now),
            decreases entries@.len(),
        {
            let ghost i = orig.len() - entries@.len();
            let ghost kv = kept@.map_values(|e: (String, Paste)| paste_entry_view(e));
            let ghost pre = orig.take(i);
            let ghost ev = entries@;
            let e = entries.remove(0);
            proof {
                assert(ev.map_values(|e: (String, Paste)| paste_entry_view(e)) == orig.skip(i));
                assert(paste_entry_view(ev[0]) == orig.skip(i)[0]);
                assert(paste_entry_view(e) == orig[i]);
                assert forall|j: int| 0 <= j < entries@.len() implies paste_entry_view(#[trigger] entries@[j]) == orig[i + 1 + j] by {
                    assert(entries@[j] == ev[j + 1]);
                    assert(paste_entry_view(ev[j + 1]) == orig.skip(i)[j + 1]);
                }
                assert(entries@.map_values(|e: (String, Paste)| paste_entry_view(e)) =~= orig.skip(i + 1));
                assert(keys_unique(pre));
                assert forall|j: int| 0 <= j < pre.len() implies #[trigger] pre[j].0 != orig[i].0 by {
                    assert(pre[j] == orig[j]);
                }
                lemma_to_map_absent(pre, orig[i].0);
                lemma_push(pre, orig[i].0, orig[i].1);
                assert(orig.take(i + 1) =~= pre.push(orig[i]));
            }
            let stale = now >= e.1.time_of_last_view && now - e.1.time_of_last_view > max_age;
            let ghost m = to_map(pre);
            let ghost k = orig[i].0;
            let ghost v = orig[i].1;
            proof {
                assert(!fresh_only(m, max_age, now).contains_key(k));
            }
            if stale {
                proof {
                    assert(fresh_only(m.insert(k, v), max_age, now) =~= fresh_only(m, max_age, now));
                }
            } else {
                kept.push(e);
                proof {
                    assert(kept@.map_values(|e: (String, Paste)| paste_entry_view(e)) =~= kv.push((k, v)));
                    lemma_push(kv, k, v);
                    assert(fresh_only(m.insert(k, v), max_age, now) =~= fresh_only(m, max_age, now).insert(k, v));
                }
            }
        }
        assert(orig.take(orig.len() as int) =~= orig);
        self.entries = kept;
    }
}

/// The id chosen on the paste form, if any: a field left empty chooses none.
pub open spec fn chosen_alias(custom_url: Option<Seq<char>>) -> Option<Seq<char>> {
    match custom_url {
        Some(u) => if u.len() == 0 {
            None
        } else {
            Some(u)
        },
        None => None,
    }
}

/// Handles the paste form of a visitor from `ip`: verified visitors may
/// choose the id (an empty field chooses none) and skip the length bounds;
/// see `PasteStore::create_text`.
pub fn new_paste_post(
    store: &mut PasteStore,
    paste: &NewPaste,
    ip: &String,
    login: Option<String>,
    is_verified: bool,
    now: u64,
) -> (r: Result<String, PasteError>)
    ensures
        r is Ok <==> text_paste_error(paste.text@, is_verified) is None,
        r matches Err(e) ==> text_paste_error(paste.text@, is_verified) == Some(e) && final(store)@ == old(store)@,
        r matches Ok(id) ==> id@ == text_post_id(old(store)@, paste.text@, chosen_alias(opt_view(paste.custom_url)), is_verified)
            && final(store)@ == after_text_post(old(store)@, paste.text@, chosen_alias(opt_view(paste.custom_url)), is_verified, ip@, opt_view(login), now),
{
    let alias = match &paste.custom_url {
        Some(a) => if a.as_str().unicode_len() == 0 {
            None
        } else {
            Some(a)
        },
        None => None,
    };
    store.create_text(&paste.text, ip, login, alias, is_verified, now)
}

/// The id a text paste of `content` gets when posted to `m`.
pub open spec fn text_post_id(
    m: Map<Seq<char>, PasteView>,
    content: Seq<char>,
    alias: Option<Seq<char>>,
    is_privileged: bool,
) -> Seq<char> {
    text_paste_id(m, decimal(text_hash_of(content) as nat), alias, is_privileged)
}

/// The store after a text paste of `content` is accepted into `m`.
pub open spec fn after_text_post(
    m: Map<Seq<char>, PasteView>,
    content: Seq<char>,
    alias: Option<Seq<char>>,
    is_privileged: bool,
    ip: Seq<char>,
    login: Option<Seq<char>>,
    now: u64,
) -> Map<Seq<char>, PasteView> {
    m.insert(
        text_post_id(m, content, alias, is_privileged),
        fresh_paste(PasteContentsView::PlainText(content), ip, login, now),
    )
}

/// Posting the same text twice without privilege, by any two posters, gives
/// the content-derived id both times and stores one paste under it.
pub proof fn lemma_repost_same_id(
    m: Map<Seq<char>, PasteView>,
    content: Seq<char>,
    alias: Option<Seq<char>>,
    first_ip: Seq<char>,
    first_login: Option<Seq<char>>,
    first_time: u64,
    second_ip: Seq<char>,
    second_login: Option<Seq<char>>,
    second_time: u64,
)
    requires
        text_paste_error(content, false) is None,
    ensures
        text_post_id(m, content, alias, false) == decimal(text_hash_of(content) as nat),
        text_post_id(after_text_post(m, content, alias, false, first_ip, first_login, first_time), content, alias, false)
            == decimal(text_hash_of(content) as nat),
        after_text_post(after_text_post(m, content, alias, false, first_ip, first_login, first_time), content, alias,
            false, second_ip, second_login, second_time).dom() == m.dom().insert(decimal(text_hash_of(content) as nat)),
{
    let h = decimal(text_hash_of(content) as nat);
    let m1 = after_text_post(m, content, alias, false, first_ip, first_login, first_time);
    let m2 = after_text_post(m1, content, alias, false, second_ip, second_login, second_time);
    assert(m2.dom() =~= m.dom().insert(h));
}

/// A privileged post with a free alias is stored under the alias, and the
/// content-derived id is left as it was.
pub proof fn lemma_alias_precedence(
    m: Map<Seq<char>, PasteView>,
    content: Seq<char>,
    alias: Seq<char>,
    ip: Seq<char>,
    login: Option<Seq<char>>,
    now: u64,
)
    requires
        !m.contains_key(alias),
        alias != decimal(text_hash_of(content) as nat),
    ensures
        text_post_id(m, content, Some(alias), true) == alias,
        after_text_post(m, content, Some(alias), true, ip, login, now).contains_key(alias),
        after_text_post(m, content, Some(alias), true, ip, login, now)[alias].content == PasteContentsView::PlainText(content),
        after_text_post(m, content, Some(alias), true, ip, login, now).contains_key(decimal(text_hash_of(content) as nat))
            == m.contains_key(decimal(text_hash_of(content) as nat)),
{
}

} // verus!
