//! The database in memory and on disk.
//!
//! A database file is laid out as follows, with nothing in between:
//!
//! | bytes    | content                                             |
//! |----------|-----------------------------------------------------|
//! | 0        | version, now 1                                      |
//! | 1 .. 17  | salt, drawn once when the database is made          |
//! | 17 .. 41 | nonce, drawn anew for every save                    |
//! | 41 ..    | cipher text of the entries: 32 bytes and their JSON |
//!
//! The key is derived from the master password and the salt. No trace of the
//! password is stored: a password is the right one if its key opens the
//! cipher text. Saving always writes the whole file.

use crate::bytes::{str_eq, zero_padded, zeroize_bytes};
use crate::db::entry::{rows_text, Entry, EntryText, Row};
use crate::db::json::{json_decode, json_encode, json_rows, json_text, zeroize_rows};
use crate::kdf::{derive_key, spec_derive_key, SALT_SIZE};
use crate::nacl::secretbox::{
    nonce_from_slice,
    spec_cipher,
    spec_decrypt,
    SecretBoxError,
    SecretKey,
    SecretMsg,
    BOX_ZERO_BYTES,
    KEY_BYTES,
    NONCE_BYTES,
    ZERO_BYTES,
};
use crate::random::os_random_bytes;
use vstd::prelude::*;
use vstd::slice::slice_subrange;
use vstd::utf8::encode_utf8;

verus! {

/// The version of the file layout that this crate reads and writes.
pub const DB_VERSION: u8 = 1;

/// The bcrypt cost at which keys are derived.
pub const BCRYPT_COST: u32 = 10;

/// Size of version and salt together.
pub const HEADER_SIZE: usize = 17;

/// Where the cipher text starts: after version, salt and nonce.
pub const CIPHER_START: usize = 41;

/// Size of the smallest file that can hold a cipher text.
pub const MIN_FILE_SIZE: usize = 73;

/// Why a database was not made, opened or saved.
#[derive(Debug, Clone, Copy, PartialEq, Eq)]
pub enum DbError {
    /// The file ends before its header, its nonce or its cipher text does.
    TooShort,
    /// The file starts with a version byte other than the supported one.
    UnsupportedVersion(u8),
    /// The password is wrong or the file was changed. Which of the two is
    /// not told.
    AuthenticationFailure,
    /// The file was opened, but what was in it is no list of entries.
    Malformed,
    /// A database cannot be made with an empty password.
    EmptyPassword,
    /// The operating system gave no random bytes.
    RandomSource,
    /// The password of an entry in memory cannot be read.
    DamagedEntry,
    /// The entries take more room than a file can have.
    TooLarge,
}

/// The bytes of a file that holds `salt`, `nonce` and `cipher`.
pub open spec fn spec_file(salt: Seq<u8>, nonce: Seq<u8>, cipher: Seq<u8>) -> Seq<u8> {
    seq![DB_VERSION] + salt + nonce + cipher
}

/// The salt in a file.
pub open spec fn file_salt(bytes: Seq<u8>) -> Seq<u8> {
    bytes.subrange(1, HEADER_SIZE as int)
}

/// The nonce in a file.
pub open spec fn file_nonce(bytes: Seq<u8>) -> Seq<u8> {
    bytes.subrange(HEADER_SIZE as int, CIPHER_START as int)
}

/// The cipher text in a file.
pub open spec fn file_cipher(bytes: Seq<u8>) -> Seq<u8> {
    bytes.skip(CIPHER_START as int)
}

/// The secret-box key that is made of a derived key: the 24 bytes of the key,
/// then zero bytes.
pub open spec fn box_key(key: Seq<u8>) -> Seq<u8> {
    zero_padded(key, KEY_BYTES as nat)
}

/// What opening the cipher text of a file with a derived key gives.
pub open spec fn spec_open_with_key(key: Seq<u8>, bytes: Seq<u8>) -> Result<
    Seq<EntryText>,
    DbError,
> {
    match spec_decrypt(box_key(key), file_nonce(bytes), file_cipher(bytes)) {
        Err(_) => Err(DbError::AuthenticationFailure),
        Ok(plain) => match json_rows(plain) {
            None => Err(DbError::Malformed),
            Some(rows) => Ok(rows),
        },
    }
}

/// What opening a file with a password gives: what its entries say, or why
/// it was refused.
///
/// The checks come in this order. A file too short for version and salt is
/// refused; then one with another version; then one too short for a nonce
/// and the smallest cipher text. Only then the key is derived and the cipher
/// text opened. An empty password is never the right one.
pub open spec fn spec_open(password: Seq<u8>, bytes: Seq<u8>) -> Result<Seq<EntryText>, DbError> {
    if bytes.len() < HEADER_SIZE {
        Err(DbError::TooShort)
    } else if bytes[0] != DB_VERSION {
        Err(DbError::UnsupportedVersion(bytes[0]))
    } else if bytes.len() < MIN_FILE_SIZE {
        Err(DbError::TooShort)
    } else if password.len() == 0 {
        Err(DbError::AuthenticationFailure)
    } else {
        spec_open_with_key(spec_derive_key(password, file_salt(bytes), BCRYPT_COST), bytes)
    }
}

/// The decrypted, in-memory working set of one open database: its entries in
/// the order in which they were added, with the salt and the key under which
/// they are saved.
pub struct Database {
    /// The salt, fixed when the database is made.
    pub bcrypt_salt: [u8; 16],
    /// The key that was derived from the master password and the salt.
    pub bcrypt_pass: [u8; 24],
    /// The entries, in the order in which they were added.
    pub entries: Vec<Entry>,
}

/// The plain parts of a file that was opened: salt, key and rows.
pub struct Opened {
    pub salt: [u8; 16],
    pub key: [u8; 24],
    pub rows: Vec<Row>,
}

impl Database {
    /// The salt of this database. It never changes.
    pub open spec fn salt(&self) -> Seq<u8> {
        self.bcrypt_salt@
    }

    /// The key under which this database is saved.
    pub open spec fn key(&self) -> Seq<u8> {
        self.bcrypt_pass@
    }

    /// What the entries say, in order.
    pub open spec fn texts(&self) -> Seq<EntryText> {
        Seq::new(self.entries@.len(), |i: int| self.entries@[i].text())
    }

    /// The password of every entry can be read.
    pub open spec fn intact(&self) -> bool {
        forall|i: int| 0 <= i < self.entries@.len() ==> (#[trigger] self.entries@[i]).intact()
    }

    /// The plain text of every password is out of sight.
    pub open spec fn locked(&self) -> bool {
        forall|i: int|
            0 <= i < self.entries@.len() ==> (#[trigger] self.entries@[i]).password.locked()
    }

    /// `password` is a password of this database: its key is the database's.
    pub open spec fn opens_with(&self, password: Seq<u8>) -> bool {
        &&& password.len() > 0
        &&& spec_derive_key(password, self.salt(), BCRYPT_COST) == self.key()
    }

    /// `i` is the place of the first entry with this title.
    pub open spec fn is_first_match(entries: Seq<Entry>, title: Seq<char>, i: int) -> bool {
        &&& 0 <= i < entries.len()
        &&& entries[i].title@ == title
        &&& forall|j: int| 0 <= j < i ==> (#[trigger] entries[j]).title@ != title
    }

    /// No entry has this title.
    pub open spec fn has_no_match(entries: Seq<Entry>, title: Seq<char>) -> bool {
        forall|j: int| 0 <= j < entries.len() ==> (#[trigger] entries[j]).title@ != title
    }

    /// Makes a new database without entries, with a salt drawn from the
    /// operating system's random source.
    pub fn empty(password: &str) -> (res: Result<Database, DbError>)
        ensures
            match res {
                Ok(db) => db.entries@.len() == 0 && db.opens_with(encode_utf8(password@)),
                Err(e) => if encode_utf8(password@).len() == 0 {
                    e == DbError::EmptyPassword
                } else {
                    e == DbError::RandomSource
                },
            },
            encode_utf8(password@).len() == 0 ==> res is Err,
    {
        if password.as_bytes().len() == 0 {
            return Err(DbError::EmptyPassword);
        }
        match os_random_bytes(SALT_SIZE) {
            Some(random) => Database::with_salt(password, salt_from_slice(random.as_slice())),
            None => Err(DbError::RandomSource),
        }
    }

    /// Makes a new database without entries, with the given salt.
    pub fn with_salt(password: &str, salt: [u8; 16]) -> (res: Result<Database, DbError>)
        ensures
            match res {
                Ok(db) => {
                    &&& db.entries@.len() == 0
                    &&& db.salt() == salt@
                    &&& db.opens_with(encode_utf8(password@))
                },
                Err(e) => e == DbError::EmptyPassword,
            },
            encode_utf8(password@).len() == 0 <==> res is Err,
    {
        if password.as_bytes().len() == 0 {
            return Err(DbError::EmptyPassword);
        }
        let key: [u8; 24] = derive_key(password.as_bytes(), &salt, BCRYPT_COST);
        Ok(Database { bcrypt_salt: salt, bcrypt_pass: key, entries: Vec::new() })
    }

    /// Takes a file apart: checks its layout, derives the key, opens the
    /// cipher text and reads the rows in it.
    ///
    /// Nothing of the plain text is given out unless the cipher text was
    /// found authentic. The rows that come out hold passwords in plain text:
    /// `open` puts them into safekeeping at once and is the function to use.
    pub fn decode(password: &str, bytes: &[u8]) -> (res: Result<Opened, DbError>)
        ensures
            match res {
                Ok(opened) => {
                    &&& spec_open(encode_utf8(password@), bytes@) == Ok::<Seq<EntryText>, DbError>(
                        rows_text(opened.rows@),
                    )
                    &&& opened.salt@ == file_salt(bytes@)
                    &&& opened.key@ == spec_derive_key(
                        encode_utf8(password@),
                        file_salt(bytes@),
                        BCRYPT_COST,
                    )
                },
                Err(e) => spec_open(encode_utf8(password@), bytes@) == Err::<
                    Seq<EntryText>,
                    DbError,
                >(e),
            },
    {
        if bytes.len() < HEADER_SIZE {
            return Err(DbError::TooShort);
        }
        let version: u8 = bytes[0];
        if version != DB_VERSION {
            return Err(DbError::UnsupportedVersion(version));
        }
        if bytes.len() < MIN_FILE_SIZE {
            return Err(DbError::TooShort);
        }
        if password.as_bytes().len() == 0 {
            return Err(DbError::AuthenticationFailure);
        }
        let salt: [u8; 16] = salt_from_slice(slice_subrange(bytes, 1, HEADER_SIZE));
        let key: [u8; 24] = derive_key(password.as_bytes(), &salt, BCRYPT_COST);
        let rest = slice_subrange(bytes, HEADER_SIZE, bytes.len());
        let secret: SecretMsg = match SecretMsg::from_bytes(rest) {
            Some(secret) => secret,
            None => {
                return Err(DbError::TooShort);
            },
        };
        proof {
            assert(secret.nonce@ =~= file_nonce(bytes@));
            assert(secret.cipher@ =~= file_cipher(bytes@));
        }
        let box_key = SecretKey::from_slice(key.as_slice());
        match box_key.decrypt(&secret) {
            Ok(plain) => {
                let mut plain = plain;
                let decoded = json_decode(plain.as_slice());
                zeroize_bytes(&mut plain);
                match decoded {
                    Some(rows) => Ok(Opened { salt, key, rows }),
                    None => Err(DbError::Malformed),
                }
            },
            Err(_) => {
                proof {
                    lemma_refused_key(encode_utf8(password@), bytes@);
                }
                Err(DbError::AuthenticationFailure)
            },
        }
    }

    /// Opens a database from the bytes of its file.
    ///
    /// Every password that comes out of the file goes into safekeeping at
    /// once, which takes random bytes: where the operating system gives
    /// none, a file that was opened correctly is still not returned. A file
    /// without entries needs no random bytes and is always returned.
    pub fn open(password: &str, bytes: &[u8]) -> (res: Result<Database, DbError>)
        ensures
            match res {
                Ok(db) => {
                    &&& spec_open(encode_utf8(password@), bytes@) == Ok::<Seq<EntryText>, DbError>(
                        db.texts(),
                    )
                    &&& db.intact()
                    &&& db.locked()
                    &&& db.salt() == file_salt(bytes@)
                    &&& db.opens_with(encode_utf8(password@))
                },
                Err(e) => if e == DbError::RandomSource {
                    spec_open(encode_utf8(password@), bytes@) is Ok
                } else {
                    spec_open(encode_utf8(password@), bytes@) == Err::<Seq<EntryText>, DbError>(e)
                },
            },
            spec_open(encode_utf8(password@), bytes@) matches Ok(texts) && texts.len() == 0
                ==> res is Ok,
    {
        match Database::decode(password, bytes) {
            Ok(opened) => {
                let Opened { salt, key, rows } = opened;
                let ghost texts = rows_text(rows@);
                let mut made: Vec<Option<Entry>> = Vec::new();
                for row in it: rows.into_iter()
                    invariant
                        it.seq() == rows@,
                        texts == rows_text(rows@),
                        made@.len() == it.index(),
                        forall|i: int|
                            0 <= i < made@.len() ==> ((#[trigger] made@[i]) matches Some(entry)
                                ==> entry.intact() && entry.password.locked() && entry.text()
                                == texts[i]),
                {
                    made.push(Entry::from_row(row));
                }
                match Database::from_parts(salt, key, made) {
                    Ok(db) => {
                        assert(db.texts() =~= texts);
                        Ok(db)
                    },
                    Err(e) => Err(e),
                }
            },
            Err(e) => Err(e),
        }
    }

    /// Puts a database together from its salt, its key and its entries as
    /// they were made. Where one of them could not be made, there is no
    /// database.
    pub fn from_parts(salt: [u8; 16], key: [u8; 24], made: Vec<Option<Entry>>) -> (res: Result<
        Database,
        DbError,
    >)
        ensures
            res is Ok <==> forall|i: int| 0 <= i < made@.len() ==> (#[trigger] made@[i]) is Some,
            res matches Ok(db) ==> {
                &&& db.salt() == salt@
                &&& db.key() == key@
                &&& db.entries@.len() == made@.len()
                &&& forall|i: int| 0 <= i < made@.len() ==> db.entries@[i] == made@[i]->0
            },
            res matches Err(e) ==> e == DbError::RandomSource,
    {
        let mut entries: Vec<Entry> = Vec::new();
        let mut complete: bool = true;
        for item in it: made.into_iter()
            invariant
                it.seq() == made@,
                complete <==> forall|i: int| 0 <= i < it.index() ==> (#[trigger] made@[i]) is Some,
                complete ==> entries@.len() == it.index(),
                complete ==> forall|i: int|
                    0 <= i < it.index() ==> entries@[i] == (#[trigger] made@[i])->0,
        {
            match item {
                Some(entry) => {
                    if complete {
                        entries.push(entry);
                    }
                },
                None => {
                    complete = false;
                },
            }
        }
        if complete {
            Ok(Database { bcrypt_salt: salt, bcrypt_pass: key, entries })
        } else {
            Err(DbError::RandomSource)
        }
    }

    /// Writes the database as the bytes of a file, with the given nonce.
    ///
    /// A nonce must never be used twice with one key: `save` draws a fresh
    /// one for every call and is the function to use.
    pub fn save_with_nonce(&self, nonce: [u8; 24]) -> (res: Result<Vec<u8>, DbError>)
        ensures
            match res {
                Ok(bytes) => {
                    &&& self.intact()
                    &&& bytes@ == spec_file(
                        self.salt(),
                        nonce@,
                        spec_cipher(box_key(self.key()), nonce@, json_text(self.texts())),
                    )
                    &&& bytes@.len() == MIN_FILE_SIZE + json_text(self.texts()).len()
                    &&& forall|password: Seq<u8>| #[trigger]
                        self.opens_with(password) ==> spec_open(password, bytes@) == Ok::<
                            Seq<EntryText>,
                            DbError,
                        >(self.texts())
                },
                Err(e) => if self.intact() {
                    e == DbError::TooLarge && json_text(self.texts()).len() + MIN_FILE_SIZE
                        > usize::MAX
                } else {
                    e == DbError::DamagedEntry
                },
            },
    {
        let mut rows: Vec<Row> = Vec::new();
        let n: usize = self.entries.len();
        let mut i: usize = 0;
        while i < n
            invariant
                n == self.entries@.len(),
                i <= n,
                rows@.len() == i,
                forall|j: int|
                    0 <= j < i ==> (#[trigger] self.entries@[j]).intact() && rows_text(rows@)[j]
                        == self.entries@[j].text(),
            decreases n - i,
        {
            match self.entries[i].to_row() {
                Some(row) => {
                    let ghost before = rows@;
                    rows.push(row);
                    assert forall|j: int| 0 <= j < i + 1 implies (#[trigger] self.entries@[j]).intact()
                        && rows_text(rows@)[j] == self.entries@[j].text() by {
                        if j < i {
                            assert(rows@[j] == before[j]);
                            assert(rows_text(before)[j] == self.entries@[j].text());
                        }
                    }
                },
                None => {
                    zeroize_rows(&mut rows);
                    return Err(DbError::DamagedEntry);
                },
            }
            i += 1;
        }
        assert(rows_text(rows@) =~= self.texts());
        let mut text: Vec<u8> = json_encode(&rows).unwrap();
        zeroize_rows(&mut rows);
        if text.len() > usize::MAX - MIN_FILE_SIZE {
            zeroize_bytes(&mut text);
            return Err(DbError::TooLarge);
        }
        let box_key = SecretKey::from_slice(self.bcrypt_pass.as_slice());
        let enc: SecretMsg = box_key.encrypt_with_nonce(nonce, text.as_slice());
        let ghost plain = text@;
        zeroize_bytes(&mut text);
        let mut bytes: Vec<u8> = Vec::new();
        bytes.push(DB_VERSION);
        bytes.extend_from_slice(self.bcrypt_salt.as_slice());
        bytes.extend_from_slice(enc.nonce.as_slice());
        bytes.extend_from_slice(enc.cipher.as_slice());
        proof {
            assert(bytes@ =~= spec_file(self.salt(), nonce@, enc.cipher@));
            assert forall|password: Seq<u8>| #[trigger]
                self.opens_with(password) implies spec_open(password, bytes@) == Ok::<
                Seq<EntryText>,
                DbError,
            >(self.texts()) by {
                lemma_open_of_file(
                    password,
                    self.salt(),
                    nonce@,
                    enc.cipher@,
                    plain,
                    self.texts(),
                );
            }
        }
        Ok(bytes)
    }

    /// Writes the database as the bytes of a file, under a nonce drawn from
    /// the operating system's random source.
    ///
    /// What comes out can be opened again with every password of this
    /// database, and then says what the entries say now.
    pub fn save(&self) -> (res: Result<Vec<u8>, DbError>)
        ensures
            match res {
                Ok(bytes) => {
                    &&& self.intact()
                    &&& bytes@ == spec_file(
                        self.salt(),
                        file_nonce(bytes@),
                        spec_cipher(
                            box_key(self.key()),
                            file_nonce(bytes@),
                            json_text(self.texts()),
                        ),
                    )
                    &&& bytes@.len() == MIN_FILE_SIZE + json_text(self.texts()).len()
                    &&& forall|password: Seq<u8>| #[trigger]
                        self.opens_with(password) ==> spec_open(password, bytes@) == Ok::<
                            Seq<EntryText>,
                            DbError,
                        >(self.texts())
                },
                Err(e) => if !self.intact() {
                    e == DbError::DamagedEntry || e == DbError::RandomSource
                } else {
                    e == DbError::RandomSource || (e == DbError::TooLarge && json_text(
                        self.texts(),
                    ).len() + MIN_FILE_SIZE > usize::MAX)
                },
            },
    {
        match os_random_bytes(NONCE_BYTES) {
            Some(random) => {
                let nonce: [u8; 24] = nonce_from_slice(random.as_slice());
                let res = self.save_with_nonce(nonce);
                proof {
                    if res is Ok {
                        assert(file_nonce(res->Ok_0@) =~= nonce@);
                    }
                }
                res
            },
            None => Err(DbError::RandomSource),
        }
    }

    /// Appends an entry. Titles may repeat: `get` and `remove` then act on
    /// the entry that was added first.
    pub fn add(&mut self, entry: Entry)
        ensures
            final(self).entries@ == old(self).entries@.push(entry),
            final(self).salt() == old(self).salt(),
            final(self).key() == old(self).key(),
    {
        self.entries.push(entry);
    }

    /// The first entry with exactly this title.
    pub fn get(&self, entry_title: &str) -> (res: Option<&Entry>)
        ensures
            match res {
                Some(entry) => exists|i: int|
                    Database::is_first_match(self.entries@, entry_title@, i) && *entry
                        == self.entries@[i],
                None => Database::has_no_match(self.entries@, entry_title@),
            },
    {
        match self.position(entry_title) {
            Some(index) => Some(&self.entries[index]),
            None => None,
        }
    }

    /// Removes the first entry with exactly this title and says whether
    /// there was one. The other entries keep their order.
    pub fn remove(&mut self, entry_title: &str) -> (found: bool)
        ensures
            found ==> exists|i: int|
                Database::is_first_match(old(self).entries@, entry_title@, i) && final(self).entries@ == old(self).entries@.remove(i),
            !found ==> Database::has_no_match(old(self).entries@, entry_title@) && final(self).entries@ == old(self).entries@,
            final(self).salt() == old(self).salt(),
            final(self).key() == old(self).key(),
    {
        match self.position(entry_title) {
            Some(index) => {
                let _removed = self.entries.remove(index);
                true
            },
            None => false,
        }
    }

    /// The entries, in the order in which they were added.
    pub fn list(&self) -> (entries: &Vec<Entry>)
        ensures
            entries@ == self.entries@,
    {
        &self.entries
    }

    /// The place of the first entry with exactly this title.
    pub fn position(&self, entry_title: &str) -> (res: Option<usize>)
        ensures
            match res {
                Some(index) => Database::is_first_match(self.entries@, entry_title@, index as int),
                None => Database::has_no_match(self.entries@, entry_title@),
            },
    {
        let n: usize = self.entries.len();
        let mut i: usize = 0;
        while i < n
            invariant
                n == self.entries@.len(),
                i <= n,
                forall|j: int| 0 <= j < i ==> (#[trigger] self.entries@[j]).title@ != entry_title@,
            decreases n - i,
        {
            if str_eq(self.entries[i].title.as_str(), entry_title) {
                return Some(i);
            }
            i += 1;
        }
        None
    }
}

/// A database together with the place where its file lies.
pub struct DatabaseInFile {
    pub db: Database,
    pub filepath: String,
}

impl DatabaseInFile {
    /// The bytes to write to `filepath` so that the file holds the database
    /// as it is now: what `save` gives for the database.
    pub fn save(&self) -> (res: Result<Vec<u8>, DbError>)
        ensures
            match res {
                Ok(bytes) => {
                    &&& self.db.intact()
                    &&& bytes@ == spec_file(
                        self.db.salt(),
                        file_nonce(bytes@),
                        spec_cipher(
                            box_key(self.db.key()),
                            file_nonce(bytes@),
                            json_text(self.db.texts()),
                        ),
                    )
                    &&& bytes@.len() == MIN_FILE_SIZE + json_text(self.db.texts()).len()
                    &&& forall|password: Seq<u8>| #[trigger]
                        self.db.opens_with(password) ==> spec_open(password, bytes@) == Ok::<
                            Seq<EntryText>,
                            DbError,
                        >(self.db.texts())
                },
                Err(e) => if !self.db.intact() {
                    e == DbError::DamagedEntry || e == DbError::RandomSource
                } else {
                    e == DbError::RandomSource || (e == DbError::TooLarge && json_text(
                        self.db.texts(),
                    ).len() + MIN_FILE_SIZE > usize::MAX)
                },
            },
    {
        self.db.save()
    }
}

/// Copies 16 bytes into a salt.
fn salt_from_slice(bytes: &[u8]) -> (salt: [u8; 16])
    requires
        bytes@.len() == SALT_SIZE,
    ensures
        salt@ == bytes@,
{
    let mut salt: [u8; 16] = [0u8; 16];
    let mut i: usize = 0;
    while i < SALT_SIZE
        invariant
            bytes@.len() == SALT_SIZE,
            i <= SALT_SIZE,
            forall|j: int| 0 <= j < i ==> salt@[j] == bytes@[j],
        decreases SALT_SIZE - i,
    {
        salt[i] = bytes[i];
        i += 1;
    }
    assert(salt@ =~= bytes@);
    salt
}

/// A file that was put together from a salt, a nonce and a cipher text opens
/// to what the cipher text holds, with every password whose key opens the
/// cipher text.
pub proof fn lemma_open_of_file(
    password: Seq<u8>,
    salt: Seq<u8>,
    nonce: Seq<u8>,
    cipher: Seq<u8>,
    plain: Seq<u8>,
    texts: Seq<EntryText>,
)
    requires
        password.len() > 0,
        salt.len() == SALT_SIZE,
        nonce.len() == NONCE_BYTES,
        spec_decrypt(box_key(spec_derive_key(password, salt, BCRYPT_COST)), nonce, cipher) == Ok::<
            Seq<u8>,
            SecretBoxError,
        >(plain),
        json_rows(plain) == Some(texts),
    ensures
        spec_open(password, spec_file(salt, nonce, cipher)) == Ok::<Seq<EntryText>, DbError>(texts),
{
    let bytes = spec_file(salt, nonce, cipher);
    assert(cipher.len() >= ZERO_BYTES);
    assert(bytes[0] == DB_VERSION);
    assert(file_salt(bytes) =~= salt);
    assert(file_nonce(bytes) =~= nonce);
    assert(file_cipher(bytes) =~= cipher);
}

/// A file without bytes, a file of one byte, and every other file that is
/// too short for a version and a salt is refused as too short; a file that
/// is long enough and starts with another version than the supported one is
/// refused for its version. Neither depends on the password, and neither
/// needs a key.
pub proof fn lemma_structural_rejection(password: Seq<u8>, bytes: Seq<u8>)
    ensures
        bytes.len() < HEADER_SIZE ==> spec_open(password, bytes) == Err::<Seq<EntryText>, DbError>(
            DbError::TooShort,
        ),
        bytes.len() >= HEADER_SIZE && bytes[0] != DB_VERSION ==> spec_open(password, bytes) == Err::<
            Seq<EntryText>,
            DbError,
        >(DbError::UnsupportedVersion(bytes[0])),
        HEADER_SIZE <= bytes.len() < MIN_FILE_SIZE && bytes[0] == DB_VERSION ==> spec_open(
            password,
            bytes,
        ) == Err::<Seq<EntryText>, DbError>(DbError::TooShort),
{
}

/// Where the cipher text of a well-laid-out file is refused under the key of
/// a password, be it that the password is another one or that the file was
/// changed, opening the file with that password is an authentication failure
/// and nothing else.
pub proof fn lemma_refused_key(password: Seq<u8>, bytes: Seq<u8>)
    requires
        bytes.len() >= MIN_FILE_SIZE,
        bytes[0] == DB_VERSION,
        spec_decrypt(
            box_key(spec_derive_key(password, file_salt(bytes), BCRYPT_COST)),
            file_nonce(bytes),
            file_cipher(bytes),
        ) is Err,
    ensures
        spec_open(password, bytes) == Err::<Seq<EntryText>, DbError>(
            DbError::AuthenticationFailure,
        ),
{
}

/// The empty password opens no file.
pub proof fn lemma_empty_password_opens_nothing(bytes: Seq<u8>)
    ensures
        spec_open(Seq::<u8>::empty(), bytes) is Err,
{
}

/// A file in which one of the 16 bytes at the start of the cipher text is
/// not zero is refused with every password.
pub proof fn lemma_padding_tamper_rejected(password: Seq<u8>, bytes: Seq<u8>, i: int)
    requires
        CIPHER_START <= i < CIPHER_START + BOX_ZERO_BYTES,
        i < bytes.len(),
        bytes[i] != 0,
    ensures
        spec_open(password, bytes) is Err,
{
    if bytes.len() >= MIN_FILE_SIZE && bytes[0] == DB_VERSION && password.len() > 0 {
        let cipher = file_cipher(bytes);
        assert(cipher[i - CIPHER_START] == bytes[i]);
        crate::nacl::secretbox::lemma_padding_is_checked(
            box_key(spec_derive_key(password, file_salt(bytes), BCRYPT_COST)),
            file_nonce(bytes),
            cipher,
            i - CIPHER_START,
        );
    }
}

} // verus!
