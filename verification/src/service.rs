use vstd::prelude::*;
use vstd::string::*;

use crate::errors::ServiceError;
use crate::files::FileStore;
use crate::identity::{
    resolve_identity, spec_strip_bearer, storage_base, user_of_config, Config, User, UserConfig,
};
use crate::media::{
    kind_of, parse_media_type, spec_extension_for, spec_kind_of, spec_parse_media_type,
    extension_for, MediaType, UploadKind,
};
use crate::names::{choose_base_url, generate_name};
use crate::store::{remove_hits, remove_result, RecordStore, RowData};
use crate::text::dec_int;
use crate::is_generated_name;

verus! {

/// The fixed canonical playback host for audio uploads.
pub open spec fn audio_base() -> Seq<char> {
    "https://audio.saikoro.moe/"@
}

/// The fixed service base every deletion URL starts with.
pub open spec fn delete_base() -> Seq<char> {
    "https://upload.umbra-is.gay/delete/"@
}

/// The query fragment carrying the owner id in a deletion URL.
pub open spec fn user_id_query() -> Seq<char> {
    "?user_id="@
}

/// The path segment between a tenant's storage root and a stored file, by
/// upload kind: images and audio land in their subdirectories, everything
/// else directly under the root.
pub open spec fn kind_segment(k: UploadKind) -> Seq<char> {
    match k {
        UploadKind::Image => "/images/"@,
        UploadKind::Audio => "/audio/"@,
        UploadKind::Generic => "/"@,
    }
}

/// Composes a stored filename from its random stem and resolved extension.
pub fn build_filename(stem: &String, ext: &String) -> (r: String)
    ensures
        r@ == stem@ + "."@ + ext@,
{
    let mut s = stem.clone();
    s.append(".");
    s.append(ext.as_str());
    s
}

/// Composes the on-disk path for a stored file.
pub fn storage_path(root: &String, kind: UploadKind, filename: &String) -> (r: String)
    ensures
        r@ == root@ + kind_segment(kind) + filename@,
{
    let mut s = root.clone();
    match kind {
        UploadKind::Image => s.append("/images/"),
        UploadKind::Audio => s.append("/audio/"),
        UploadKind::Generic => s.append("/"),
    }
    s.append(filename.as_str());
    s
}

/// The deletion URL granting authority over one upload: the fixed base, the
/// ticket, and the owner id as a query parameter.
pub open spec fn spec_deletion_url(ticket: Seq<char>, owner: i16) -> Seq<char> {
    delete_base() + ticket + user_id_query() + dec_int(owner as int)
}

/// Builds the deletion URL for a ticket and owner.
pub fn deletion_url(ticket: &String, owner: i16) -> (r: String)
    ensures
        r@ == spec_deletion_url(ticket@, owner),
{
    let mut s = String::from_str("https://upload.umbra-is.gay/delete/");
    s.append(ticket.as_str());
    s.append("?user_id=");
    let id = crate::text::i16_dec_string(owner);
    s.append(id.as_str());
    s
}

/// What a successful upload answers: the public URL the file is served
/// from, the deletion URL, the echoed content type, the byte size as
/// declared by the upload, and — for audio — the echoed metadata.
pub struct UploadResponse {
    pub url: String,
    pub delete_url: String,
    pub content_type: String,
    pub size: u64,
    pub title: Option<String>,
    pub author: Option<String>,
}

/// The whole request-facing state: the read-only user table, the record
/// store, and the model of the filesystem.
pub struct Service {
    pub config: Config,
    pub store: RecordStore,
    pub files: FileStore,
}

/// Index of the first configuration entry with numeric id `id`.
pub open spec fn find_user_by_id(users: Seq<UserConfig>, id: i16) -> Option<int>
    decreases users.len(),
{
    if users.len() == 0 {
        None
    } else if users[0].id == id {
        Some(0 as int)
    } else {
        match find_user_by_id(users.drop_first(), id) {
            None => None,
            Some(i) => Some(i + 1),
        }
    }
}

/// `find_user_by_id` finds an entry with the id, the earliest one; `None`
/// means there is none.
pub proof fn lemma_find_user_by_id(users: Seq<UserConfig>, id: i16)
    ensures
        match find_user_by_id(users, id) {
            None => (forall|i: int| 0 <= i < users.len() ==> (#[trigger] users[i]).id != id),
            Some(i) => 0 <= i < users.len() && users[i].id == id && (forall|j: int|
                0 <= j < i ==> (#[trigger] users[j]).id != id),
        },
    decreases users.len(),
{
    if users.len() == 0 {
    } else if users[0].id == id {
    } else {
        let t = users.drop_first();
        lemma_find_user_by_id(t, id);
        assert(forall|j: int| 0 <= j < t.len() ==> t[j] == users[j + 1]);
        match find_user_by_id(t, id) {
            None => {
                assert forall|i: int| 0 <= i < users.len() implies (#[trigger] users[i]).id
                    != id by {
                    if i >= 1 {
                        assert(users[i] == t[i - 1]);
                    }
                }
            },
            Some(i) => {
                assert(users[i + 1] == t[i]);
                assert forall|j: int| 0 <= j < i + 1 implies (#[trigger] users[j]).id != id by {
                    if j >= 1 {
                        assert(users[j] == t[j - 1]);
                    }
                }
            },
        }
    }
}

/// The earliest entry with the id determines `find_user_by_id`.
pub proof fn lemma_find_user_by_id_is(users: Seq<UserConfig>, id: i16, i: int)
    requires
        0 <= i < users.len(),
        users[i].id == id,
        forall|j: int| 0 <= j < i ==> (#[trigger] users[j]).id != id,
    ensures
        find_user_by_id(users, id) == Some(i),
    decreases users.len(),
{
    if i == 0 {
    } else {
        assert(forall|j: int| 0 <= j < users.drop_first().len() ==> users.drop_first()[j] == users[
            j + 1
        ]);
        lemma_find_user_by_id_is(users.drop_first(), id, i - 1);
    }
}

impl Service {
    /// The service invariant: the configuration is usable, tickets are
    /// unique, path entries are distinct, and every stored row's owner is a
    /// configured tenant.
    pub open spec fn wf(self) -> bool {
        &&& self.config.wf()
        &&& self.store.wf()
        &&& self.files.wf()
        &&& forall|t: Seq<char>|
            self.store@.contains_key(t) ==> exists|i: int|
                0 <= i < self.config.users@.len() && (#[trigger] self.config.users@[i]).id
                    == self.store@[t].owner
    }

    /// A fresh service around a configuration: empty record store, empty
    /// filesystem.
    pub fn new(config: Config) -> (s: Self)
        requires
            config.wf(),
        ensures
            s.wf(),
            s.config == config,
            s.store@ == Map::<Seq<char>, RowData>::empty(),
            s.files@ == Set::<Seq<char>>::empty(),
    {
        Service { config, store: RecordStore::new(), files: FileStore::new() }
    }
}

/// What a successful upload does, given the identity's id and storage root,
/// the parsed content type, the two independently drawn identifiers, and the
/// chosen response base URL: exactly one row is added, keyed by the fresh
/// ticket and holding the composed filename; the file lands at the path the
/// kind selects; and every response field is determined. The filename is
/// built from the stem alone and the deletion URL from the ticket alone —
/// neither identifier is derived from the other.
pub open spec fn upload_ok(
    pre: Service,
    post: Service,
    owner: i16,
    root: Seq<char>,
    top: Seq<char>,
    sub: Seq<char>,
    size: u64,
    title: Option<Seq<char>>,
    author: Option<Seq<char>>,
    stem: Seq<char>,
    ticket: Seq<char>,
    base: Seq<char>,
    resp: UploadResponse,
) -> bool {
    let kind = spec_kind_of(top);
    let filename = stem + "."@ + spec_extension_for(top, sub);
    let path = root + kind_segment(kind) + filename;
    let stored_title: Option<Seq<char>> = if kind == UploadKind::Audio {
        title
    } else {
        None
    };
    let stored_author: Option<Seq<char>> = if kind == UploadKind::Audio {
        author
    } else {
        None
    };
    &&& !pre.store@.contains_key(ticket)
    &&& post.config == pre.config
    &&& post.store@ == pre.store@.insert(
        ticket,
        (RowData { owner, filename, title: stored_title, author: stored_author }),
    )
    &&& post.files@ == pre.files@.insert(path)
    &&& resp.url@ == (if kind == UploadKind::Audio {
        audio_base() + filename
    } else {
        base + filename
    })
    &&& resp.delete_url@ == spec_deletion_url(ticket, owner)
    &&& resp.content_type@ == top + "/"@ + sub
    &&& resp.size == size
    &&& resp.title.deep_view() == stored_title
    &&& resp.author.deep_view() == stored_author
}

/// Copies optional metadata.
fn clone_opt(o: &Option<String>) -> (r: Option<String>)
    ensures
        r.deep_view() == o.deep_view(),
{
    match o {
        Some(s) => Some(s.clone()),
        None => None,
    }
}

impl Service {
    /// The deterministic tail of an upload, once the identity is resolved,
    /// the content type parsed, and the identifiers drawn. The record is
    /// inserted before the file is persisted, so a crash between the two
    /// leaves an orphaned row, never an unmanaged file. A ticket collision —
    /// the store's unique constraint — is a storage error and changes
    /// nothing.
    pub fn upload_with_names(
        &mut self,
        user: &User,
        mt: &MediaType,
        size: u64,
        title: Option<String>,
        author: Option<String>,
        stem: &String,
        ticket: &String,
        base: &String,
    ) -> (r: Result<UploadResponse, ServiceError>)
        requires
            old(self).wf(),
            exists|i: int|
                0 <= i < old(self).config.users@.len() && (#[trigger] old(
                    self,
                ).config.users@[i]).id == user.id,
        ensures
            final(self).wf(),
            r is Ok <==> !old(self).store@.contains_key(ticket@),
            match r {
                Ok(resp) => upload_ok(
                    *old(self),
                    *final(self),
                    user.id,
                    user.save_base_path@,
                    mt.top@,
                    mt.sub@,
                    size,
                    title.deep_view(),
                    author.deep_view(),
                    stem@,
                    ticket@,
                    base@,
                    resp,
                ),
                Err(e) => e == ServiceError::StorageUnavailable && *final(self) == *old(self),
            },
    {
        let ext = extension_for(mt);
        let filename = build_filename(stem, &ext);
        let kind = kind_of(mt);
        let resp_title: Option<String> = if kind == UploadKind::Audio {
            title
        } else {
            None
        };
        let resp_author: Option<String> = if kind == UploadKind::Audio {
            author
        } else {
            None
        };
        let row_title = clone_opt(&resp_title);
        let row_author = clone_opt(&resp_author);
        match self.store.insert(user.id, filename.clone(), ticket.clone(), row_title, row_author) {
            Err(_) => {
                return Err(ServiceError::StorageUnavailable);
            },
            Ok(_) => {},
        }
        let path = storage_path(&user.save_base_path, kind, &filename);
        self.files.add(path);
        let url = if kind == UploadKind::Audio {
            let mut u = String::from_str("https://audio.saikoro.moe/");
            u.append(filename.as_str());
            u
        } else {
            let mut u = base.clone();
            u.append(filename.as_str());
            u
        };
        let del = deletion_url(ticket, user.id);
        let mut ct = mt.top.clone();
        ct.append("/");
        ct.append(mt.sub.as_str());
        let resp = UploadResponse {
            url,
            delete_url: del,
            content_type: ct,
            size,
            title: resp_title,
            author: resp_author,
        };
        proof {
            assert forall|t: Seq<char>| self.store@.contains_key(t) implies exists|i: int|
                0 <= i < self.config.users@.len() && (#[trigger] self.config.users@[i]).id
                    == self.store@[t].owner by {
                if t != ticket@ {
                    assert(old(self).store@.contains_key(t));
                    assert(self.store@[t] == old(self).store@[t]);
                    let i0 = choose|i: int|
                        0 <= i < old(self).config.users@.len() && (#[trigger] old(
                            self,
                        ).config.users@[i]).id == old(self).store@[t].owner;
                    assert(self.config.users@[i0].id == self.store@[t].owner);
                } else {
                    assert(self.store@[t].owner == user.id);
                    let i0 = choose|i: int|
                        0 <= i < old(self).config.users@.len() && (#[trigger] old(
                            self,
                        ).config.users@[i]).id == user.id;
                    assert(self.config.users@[i0].id == self.store@[t].owner);
                }
            }
        }
        Ok(resp)
    }
}

/// What one upload request does, whatever the identifier draws and the URL
/// pick came to: some configured entry `i` matched the token, the two
/// identifiers are well-formed generated names, the base URL came from that
/// entry's pool (unless the upload is audio, whose host is fixed), and the
/// outcome is `upload_ok` — or the drawn ticket collided with an existing
/// one, a storage error that changes nothing.
pub open spec fn upload_outcome(
    pre: Service,
    post: Service,
    i: int,
    tok: Seq<char>,
    top: Seq<char>,
    sub: Seq<char>,
    size: u64,
    title: Option<Seq<char>>,
    author: Option<Seq<char>>,
    stem: Seq<char>,
    ticket: Seq<char>,
    base: Seq<char>,
    r: Result<UploadResponse, ServiceError>,
) -> bool {
    &&& 0 <= i < pre.config.users@.len()
    &&& pre.config.users@[i].token@ == tok
    &&& is_generated_name(stem)
    &&& is_generated_name(ticket)
    &&& (spec_kind_of(top) != UploadKind::Audio ==> exists|k: int|
        0 <= k < pre.config.users@[i].response_urls@.len() && base == (
        #[trigger] pre.config.users@[i].response_urls@[k])@)
    &&& match r {
        Ok(resp) => upload_ok(
            pre,
            post,
            pre.config.users@[i].id,
            storage_base() + pre.config.users@[i].name@,
            top,
            sub,
            size,
            title,
            author,
            stem,
            ticket,
            base,
            resp,
        ),
        Err(e) => e == ServiceError::StorageUnavailable && pre.store@.contains_key(ticket) && post
            == pre,
    }
}

/// What one upload request may answer, over every draw of the two
/// identifiers and every pick from the URL pool: some such values exist for
/// which `upload_outcome` holds.
pub open spec fn upload_any_outcome(
    pre: Service,
    post: Service,
    tok: Seq<char>,
    top: Seq<char>,
    sub: Seq<char>,
    size: u64,
    title: Option<Seq<char>>,
    author: Option<Seq<char>>,
    r: Result<UploadResponse, ServiceError>,
) -> bool {
    exists|i: int, stem: Seq<char>, ticket: Seq<char>, base: Seq<char>|
        #[trigger] upload_outcome(
            pre,
            post,
            i,
            tok,
            top,
            sub,
            size,
            title,
            author,
            stem,
            ticket,
            base,
            r,
        )
}

impl Service {
    /// One upload request, end to end: resolve the identity from the
    /// `Authorization` header, read the declared content type, draw the
    /// filename stem and the deletion ticket independently, insert the
    /// record, persist the file, build the response. Rejections for a
    /// missing or unknown credential and for a missing or unparseable
    /// content type happen before any store access: the state is unchanged.
    pub fn handle_upload(
        &mut self,
        header: Option<&String>,
        content_type: Option<&String>,
        size: u64,
        title: Option<String>,
        author: Option<String>,
    ) -> (r: Result<UploadResponse, ServiceError>)
        requires
            old(self).wf(),
        ensures
            final(self).wf(),
            final(self).config == old(self).config,
            match header {
                None => r == Err::<UploadResponse, ServiceError>(ServiceError::Unauthenticated)
                    && *final(self) == *old(self),
                Some(h) => {
                    let tok = spec_strip_bearer(h@);
                    if forall|i: int|
                        0 <= i < old(self).config.users@.len() ==> (#[trigger] old(
                            self,
                        ).config.users@[i]).token@ != tok {
                        r == Err::<UploadResponse, ServiceError>(ServiceError::Unauthenticated)
                            && *final(self) == *old(self)
                    } else {
                        match content_type {
                            None => r == Err::<UploadResponse, ServiceError>(
                                ServiceError::InvalidUpload,
                            ) && *final(self) == *old(self),
                            Some(cs) => match spec_parse_media_type(cs@) {
                                None => r == Err::<UploadResponse, ServiceError>(
                                    ServiceError::InvalidUpload,
                                ) && *final(self) == *old(self),
                                Some((top, sub)) => upload_any_outcome(
                                    *old(self),
                                    *final(self),
                                    tok,
                                    top,
                                    sub,
                                    size,
                                    title.deep_view(),
                                    author.deep_view(),
                                    r,
                                ),
                            },
                        }
                    }
                },
            },
    {
        let user = match resolve_identity(&self.config, header) {
            Err(e) => {
                return Err(e);
            },
            Ok(u) => u,
        };
        let cs = match content_type {
            None => {
                return Err(ServiceError::InvalidUpload);
            },
            Some(cs) => cs,
        };
        let mt = match parse_media_type(cs.as_str()) {
            None => {
                return Err(ServiceError::InvalidUpload);
            },
            Some(mt) => mt,
        };
        let ghost gi = choose|i: int|
            0 <= i < self.config.users@.len() && (#[trigger] self.config.users@[i]).token@
                == spec_strip_bearer(header->0@) && user_of_config(user, self.config.users@[i]);
        let ghost tdv = title.deep_view();
        let ghost adv = author.deep_view();
        let stem = generate_name();
        let ticket = generate_name();
        let kind = kind_of(&mt);
        let base = if kind == UploadKind::Audio {
            String::new()
        } else {
            proof {
                assert(user.response_urls.deep_view().len() == self.config.users@[
                    gi
                ].response_urls.deep_view().len());
            }
            choose_base_url(&user.response_urls).clone()
        };
        proof {
            if kind != UploadKind::Audio {
                let k = choose|k: int|
                    0 <= k < user.response_urls@.len() && base@ == (
                    #[trigger] user.response_urls@[k])@;
                assert(user.response_urls.deep_view()[k] == self.config.users@[
                    gi
                ].response_urls.deep_view()[k]);
                assert(base@ == (self.config.users@[gi].response_urls@[k])@);
            }
        }
        proof {
            assert(header is Some);
            assert(self.config.users@[gi].id == user.id);
        }
        let r = self.upload_with_names(&user, &mt, size, title, author, &stem, &ticket, &base);
        proof {
            assert(user.save_base_path@ == storage_base() + self.config.users@[gi].name@);
            assert(upload_outcome(
                *old(self),
                *self,
                gi,
                spec_strip_bearer(header->0@),
                mt.top@,
                mt.sub@,
                size,
                tdv,
                adv,
                stem@,
                ticket@,
                base@,
                r,
            ));
            assert(upload_any_outcome(
                *old(self),
                *self,
                spec_strip_bearer(header->0@),
                mt.top@,
                mt.sub@,
                size,
                tdv,
                adv,
                r,
            ));
        }
        r
    }
}

/// What one deletion request does: when a row matches the ticket and owner,
/// it is removed — atomically, so of any set of concurrent requests for the
/// same ticket exactly one can find it — and the file at the owner's images
/// path for the stored filename is removed too; a missing file (or an owner
/// no longer configured) is answered as a storage inconsistency, with the
/// row nonetheless gone. When nothing matches — wrong ticket, wrong owner,
/// or already consumed — nothing changes and the answer is `NotFound`.
pub open spec fn delete_post(
    pre: Service,
    post: Service,
    t: Seq<char>,
    o: i16,
    r: Result<(), ServiceError>,
) -> bool {
    &&& post.config == pre.config
    &&& if remove_hits(pre.store@, t, o) {
        &&& post.store@ == remove_result(pre.store@, t, o)
        &&& match find_user_by_id(pre.config.users@, o) {
            Some(i) => {
                let path = storage_base() + pre.config.users@[i].name@ + "/images/"@
                    + pre.store@[t].filename;
                if pre.files@.contains(path) {
                    r == Ok::<(), ServiceError>(()) && post.files@ == pre.files@.remove(path)
                } else {
                    r == Err::<(), ServiceError>(ServiceError::StorageUnavailable) && post.files@
                        == pre.files@
                }
            },
            None => r == Err::<(), ServiceError>(ServiceError::StorageUnavailable) && post.files@
                == pre.files@,
        }
    } else {
        r == Err::<(), ServiceError>(ServiceError::NotFound) && post == pre
    }
}

impl Service {
    /// One deletion request, end to end: atomically find and delete the row
    /// by ticket and owner, then remove the stored file from the owner's
    /// images directory. Deletion only ever targets the images directory.
    /// Finds the configuration entry for a numeric owner id.
    fn find_user_index(config: &Config, id: i16) -> (r: Option<usize>)
        ensures
            match r {
                Some(i) => find_user_by_id(config.users@, id) == Some(i as int),
                None => find_user_by_id(config.users@, id) is None,
            },
    {
        let n = config.users.len();
        let mut i: usize = 0;
        while i < n
            invariant
                n == config.users@.len(),
                0 <= i <= n,
                forall|j: int| 0 <= j < i ==> (#[trigger] config.users@[j]).id != id,
            decreases n - i,
        {
            if config.users[i].id == id {
                proof {
                    lemma_find_user_by_id_is(config.users@, id, i as int);
                }
                return Some(i);
            }
            i += 1;
        }
        proof {
            lemma_find_user_by_id(config.users@, id);
        }
        None
    }

    pub fn handle_delete(&mut self, ticket: &String, user_id: i16) -> (r: Result<
        (),
        ServiceError,
    >)
        requires
            old(self).wf(),
        ensures
            final(self).wf(),
            delete_post(*old(self), *final(self), ticket@, user_id, r),
    {
        let filename = match self.store.remove_by_ticket_and_owner(ticket, user_id) {
            Err(_) => {
                return Err(ServiceError::NotFound);
            },
            Ok(f) => f,
        };
        proof {
            assert forall|t: Seq<char>| self.store@.contains_key(t) implies exists|i: int|
                0 <= i < self.config.users@.len() && (#[trigger] self.config.users@[i]).id
                    == self.store@[t].owner by {
                assert(old(self).store@.contains_key(t));
                assert(self.store@[t] == old(self).store@[t]);
                let i0 = choose|i: int|
                    0 <= i < old(self).config.users@.len() && (#[trigger] old(
                        self,
                    ).config.users@[i]).id == old(self).store@[t].owner;
                assert(self.config.users@[i0].id == self.store@[t].owner);
            }
        }
        let i = match Self::find_user_index(&self.config, user_id) {
            None => {
                return Err(ServiceError::StorageUnavailable);
            },
            Some(i) => i,
        };
        proof {
            lemma_find_user_by_id(self.config.users@, user_id);
        }
        let mut path = String::from_str("/etc/uploaded/");
        path.append(self.config.users[i].name.as_str());
        path.append("/images/");
        path.append(filename.as_str());
        let hit = self.files.remove(&path);
        proof {
            if !hit {
                assert(self.files@ =~= old(self).files@);
            }
        }
        if hit {
            Ok(())
        } else {
            Err(ServiceError::StorageUnavailable)
        }
    }
}

/// Deleting twice with the same ticket and owner yields success at most
/// once: once a deletion has consumed the row — answering success or a
/// storage inconsistency — a second request answers `NotFound`.
pub proof fn lemma_delete_twice(
    s0: Service,
    s1: Service,
    s2: Service,
    t: Seq<char>,
    o: i16,
    r1: Result<(), ServiceError>,
    r2: Result<(), ServiceError>,
)
    requires
        delete_post(s0, s1, t, o, r1),
        delete_post(s1, s2, t, o, r2),
    ensures
        r1 != Err::<(), ServiceError>(ServiceError::NotFound) ==> r2 == Err::<(), ServiceError>(
            ServiceError::NotFound,
        ),
        !(r1 is Ok && r2 is Ok),
{
}

/// A deletion with a valid ticket but a mismatched owner id answers
/// `NotFound` and leaves both the record and the file intact.
pub proof fn lemma_wrong_owner_delete(
    s0: Service,
    s1: Service,
    t: Seq<char>,
    o: i16,
    r: Result<(), ServiceError>,
)
    requires
        delete_post(s0, s1, t, o, r),
        s0.store@.contains_key(t),
        s0.store@[t].owner != o,
    ensures
        r == Err::<(), ServiceError>(ServiceError::NotFound),
        s1 == s0,
{
}

/// Round trip: an image upload followed by a deletion with the returned
/// ticket and the uploader's id removes both the row and the file, leaving
/// the record store and the filesystem as they were (for a ticket and a
/// path that were fresh, as drawn identifiers are in practice).
pub proof fn lemma_upload_round_trip(
    s0: Service,
    s1: Service,
    s2: Service,
    i: int,
    owner: i16,
    sub: Seq<char>,
    size: u64,
    title: Option<Seq<char>>,
    author: Option<Seq<char>>,
    stem: Seq<char>,
    ticket: Seq<char>,
    base: Seq<char>,
    resp: UploadResponse,
    r2: Result<(), ServiceError>,
)
    requires
        s0.config.wf(),
        0 <= i < s0.config.users@.len(),
        s0.config.users@[i].id == owner,
        upload_ok(
            s0,
            s1,
            owner,
            storage_base() + s0.config.users@[i].name@,
            "image"@,
            sub,
            size,
            title,
            author,
            stem,
            ticket,
            base,
            resp,
        ),
        !s0.files@.contains(
            storage_base() + s0.config.users@[i].name@ + "/images/"@ + (stem + "."@
                + spec_extension_for("image"@, sub)),
        ),
        delete_post(s1, s2, ticket, owner, r2),
    ensures
        r2 == Ok::<(), ServiceError>(()),
        s2.store@ == s0.store@,
        s2.files@ == s0.files@,
        resp.size == size,
{
    let filename = stem + "."@ + spec_extension_for("image"@, sub);
    let root = storage_base() + s0.config.users@[i].name@;
    assert(spec_kind_of("image"@) == UploadKind::Image);
    let path = root + kind_segment(UploadKind::Image) + filename;
    assert(remove_hits(s1.store@, ticket, owner));
    lemma_find_user_by_id(s1.config.users@, owner);
    match find_user_by_id(s1.config.users@, owner) {
        None => {
            assert(false);
        },
        Some(j) => {
            assert(s1.config.users@[j].id == owner);
            assert(j == i);
            assert(s1.store@[ticket].filename == filename);
            let dpath = storage_base() + s1.config.users@[j].name@ + "/images/"@
                + s1.store@[ticket].filename;
            assert(dpath == path);
            assert(s1.files@.contains(path));
            assert(r2 == Ok::<(), ServiceError>(()));
            assert(s2.store@ =~= s0.store@);
            assert(s2.files@ =~= s0.files@);
        },
    }
}

} // verus!
