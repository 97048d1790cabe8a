//! The key-value store of one server, and the image of it that is kept on disk.
use crate::json::{json_strings, read_strings, write_strings};
use crate::kv::{text_option, KVCommand};
use crate::string_map::StringMap;
use vstd::prelude::*;

verus! {

/// Whether a compare-and-swap finds the value that it expects. A key that is absent has none.
pub open spec fn cas_matches(
    m: Map<Seq<char>, Seq<char>>,
    key: Seq<char>,
    expected: Seq<char>,
) -> bool {
    m.contains_key(key) && m[key] == expected
}

/// What a command makes of the store.
pub open spec fn applied(m: Map<Seq<char>, Seq<char>>, command: KVCommand) -> Map<
    Seq<char>,
    Seq<char>,
> {
    match command {
        KVCommand::Put(key, value) => m.insert(key@, value@),
        KVCommand::Delete(key) => m.remove(key@),
        KVCommand::Get(_) => m,
        KVCommand::Cas(key, expected, new_value) => if cas_matches(m, key@, expected@) {
            m.insert(key@, new_value@)
        } else {
            m
        },
    }
}

/// What a command answers: nothing for a write, for a read the value if the key has one, and for
/// a compare-and-swap whether it took place.
pub open spec fn answer(m: Map<Seq<char>, Seq<char>>, command: KVCommand) -> Option<
    Option<Seq<char>>,
> {
    match command {
        KVCommand::Put(_, _) => None,
        KVCommand::Delete(_) => None,
        KVCommand::Get(key) => Some(
            if m.contains_key(key@) {
                Some(m[key@])
            } else {
                None
            },
        ),
        KVCommand::Cas(key, expected, _) => Some(
            Some(
                if cas_matches(m, key@, expected@) {
                    "ok"@
                } else {
                    "conflict"@
                },
            ),
        ),
    }
}

/// Whether the image on disk is written anew after a command: not after a read, nor after a
/// compare-and-swap that did not take place.
pub open spec fn persists(m: Map<Seq<char>, Seq<char>>, command: KVCommand) -> bool {
    match command {
        KVCommand::Put(_, _) => true,
        KVCommand::Delete(_) => true,
        KVCommand::Get(_) => false,
        KVCommand::Cas(key, expected, _) => cas_matches(m, key@, expected@),
    }
}

/// The store that an image on disk stands for. An image that is missing or cannot be read stands
/// for the empty store.
pub open spec fn loaded(image: Option<Seq<char>>) -> Map<Seq<char>, Seq<char>> {
    match image {
        Some(text) => match json_strings(text) {
            Some(m) => m,
            None => Map::empty(),
        },
        None => Map::empty(),
    }
}

/// The view of an answer.
pub open spec fn answer_view(a: Option<Option<String>>) -> Option<Option<Seq<char>>> {
    match a {
        Some(s) => Some(text_option(s)),
        None => None,
    }
}

/// What comes of a command.
pub struct Applied {
    /// What the client is told.
    pub answer: Option<Option<String>>,
    /// What is to be written to the disk, where something is.
    pub image: Option<String>,
}

/// The key-value store, with the path of its image on disk.
pub struct Database {
    db: StringMap,
    path: String,
}

impl View for Database {
    type V = Map<Seq<char>, Seq<char>>;

    closed spec fn view(&self) -> Map<Seq<char>, Seq<char>> {
        self.db@
    }
}

impl Database {
    /// The store is consistent in itself.
    pub closed spec fn wf(&self) -> bool {
        self.db.wf()
    }

    /// Where the image is kept.
    pub closed spec fn spec_path(&self) -> Seq<char> {
        self.path@
    }

    /// Creates the store from what the file at `path` holds: `image` is the text of the file, or
    /// `None` where it could not be read.
    pub fn new(path: String, image: Option<String>) -> (d: Database)
        ensures
            d.wf(),
            d.spec_path() == path@,
            d@ == loaded(text_option(image)),
    {
        if let Some(text) = image {
            if let Some(entries) = read_strings(text.as_str()) {
                return Database { db: StringMap::from_entries(entries), path };
            }
        }
        Database { db: StringMap::new(), path }
    }

    /// The path of the image.
    pub fn path(&self) -> (p: &String)
        ensures
            p@ == self.spec_path(),
    {
        &self.path
    }

    /// The text to be written at the path: it reads back as the store.
    pub fn persist(&self) -> (image: Option<String>)
        requires
            self.wf(),
        ensures
            image is Some,
            json_strings(image->0@) == Some(self@),
    {
        write_strings(self.db.entries())
    }

    /// Applies a command.
    pub fn handle_command(&mut self, command: KVCommand) -> (r: Applied)
        requires
            old(self).wf(),
        ensures
            final(self).wf(),
            final(self).spec_path() == old(self).spec_path(),
            final(self)@ == applied(old(self)@, command),
            answer_view(r.answer) == answer(old(self)@, command),
            r.image is Some <==> persists(old(self)@, command),
            r.image is Some ==> json_strings(r.image->0@) == Some(final(self)@),
    {
        match command {
            KVCommand::Put(key, value) => {
                self.db.insert(key, value);
                Applied { answer: None, image: self.persist() }
            },
            KVCommand::Delete(key) => {
                self.db.remove(key.as_str());
                Applied { answer: None, image: self.persist() }
            },
            KVCommand::Get(key) => {
                let found = match self.db.get(key.as_str()) {
                    Some(value) => Some(value.clone()),
                    None => None,
                };
                Applied { answer: Some(found), image: None }
            },
            KVCommand::Cas(key, expected, new_value) => {
                let matched = match self.db.get(key.as_str()) {
                    Some(current) => *current == expected,
                    None => false,
                };
                if matched {
                    self.db.insert(key, new_value);
                    Applied { answer: Some(Some("ok".to_owned())), image: self.persist() }
                } else {
                    Applied { answer: Some(Some("conflict".to_owned())), image: None }
                }
            },
        }
    }
}

/// The key that a command is about.
pub open spec fn key_of(command: KVCommand) -> Seq<char> {
    match command {
        KVCommand::Put(key, _) => key@,
        KVCommand::Delete(key) => key@,
        KVCommand::Get(key) => key@,
        KVCommand::Cas(key, _, _) => key@,
    }
}

/// A read after a put of the same key finds the value that was put.
pub proof fn law_get_after_put(
    m: Map<Seq<char>, Seq<char>>,
    key: String,
    value: String,
    read_key: String,
)
    requires
        read_key@ == key@,
    ensures
        answer(applied(m, KVCommand::Put(key, value)), KVCommand::Get(read_key)) == Some(
            Some(value@),
        ),
{
}

/// A read after a deletion of the same key finds nothing.
pub proof fn law_get_after_delete(m: Map<Seq<char>, Seq<char>>, key: String, read_key: String)
    requires
        read_key@ == key@,
    ensures
        answer(applied(m, KVCommand::Delete(key)), KVCommand::Get(read_key)) == Some(
            None::<Seq<char>>,
        ),
{
}

/// A command changes no key but its own.
pub proof fn law_other_keys_stay(
    m: Map<Seq<char>, Seq<char>>,
    command: KVCommand,
    read_key: String,
)
    requires
        read_key@ != key_of(command),
    ensures
        answer(applied(m, command), KVCommand::Get(read_key)) == answer(
            m,
            KVCommand::Get(read_key),
        ),
{
}

/// A compare-and-swap says `ok` exactly where a read would have found the expected value; a read
/// after it then finds the new value. Otherwise it says `conflict` and changes nothing.
pub proof fn law_cas_is_get_then_put(
    m: Map<Seq<char>, Seq<char>>,
    key: String,
    expected: String,
    new_value: String,
    read_key: String,
)
    requires
        read_key@ == key@,
    ensures
        ({
            let cas = KVCommand::Cas(key, expected, new_value);
            let found = answer(m, KVCommand::Get(read_key));
            let matched = found == Some(Some(expected@));
            &&& answer(m, cas) == Some(
                Some(
                    if matched {
                        "ok"@
                    } else {
                        "conflict"@
                    },
                ),
            )
            &&& "ok"@ != "conflict"@
            &&& applied(m, cas) == (if matched {
                applied(m, KVCommand::Put(key, new_value))
            } else {
                m
            })
        }),
{
    reveal_strlit("ok");
    reveal_strlit("conflict");
    assert("ok"@.len() == 2);
    assert("conflict"@.len() == 8);
}

/// A command after which no image is written has left the store as it was.
pub proof fn law_unwritten_means_unchanged(m: Map<Seq<char>, Seq<char>>, command: KVCommand)
    requires
        !persists(m, command),
    ensures
        applied(m, command) == m,
{
}

/// A store that is created from the image that another wrote holds what the other held.
pub proof fn law_image_loads_back(m: Map<Seq<char>, Seq<char>>, image: Seq<char>)
    requires
        json_strings(image) == Some(m),
    ensures
        loaded(Some(image)) == m,
{
}

/// The file follows the store: where it stood for the store before a command, and the image that
/// the command asks for, if it asks for one, is written, it stands for the store after it.
pub proof fn law_file_follows_store(
    m: Map<Seq<char>, Seq<char>>,
    file: Option<Seq<char>>,
    command: KVCommand,
    image: Option<Seq<char>>,
)
    requires
        loaded(file) == m,
        image is Some <==> persists(m, command),
        image is Some ==> json_strings(image->0) == Some(applied(m, command)),
    ensures
        loaded(
            if image is Some {
                image
            } else {
                file
            },
        ) == applied(m, command),
{
}

/// A put and a delete answer nothing, in every store, whether or not the key has a value; an
/// answer is given exactly for a get and for a compare-and-swap.
pub proof fn law_only_reads_and_swaps_are_answered(
    m: Map<Seq<char>, Seq<char>>,
    command: KVCommand,
)
    ensures
        command is Put || command is Delete ==> answer(m, command) is None,
        command is Get || command is Cas ==> answer(m, command) is Some,
{
}

/// A get answers the value that the store has under its key, where it has one, and leaves the
/// store as it is.
pub proof fn law_get_answers_what_the_store_has(m: Map<Seq<char>, Seq<char>>, key: String)
    ensures
        m.contains_key(key@) ==> answer(m, KVCommand::Get(key)) == Some(Some(m[key@])),
        !m.contains_key(key@) ==> answer(m, KVCommand::Get(key)) == Some(None::<Seq<char>>),
        applied(m, KVCommand::Get(key)) == m,
{
}

/// After a put the store has the value under the key, after a delete it has none there, and under
/// every other key it has what it had.
pub proof fn law_write_changes_its_key_alone(
    m: Map<Seq<char>, Seq<char>>,
    key: String,
    value: String,
    other: Seq<char>,
)
    ensures
        applied(m, KVCommand::Put(key, value)).contains_key(key@),
        applied(m, KVCommand::Put(key, value))[key@] == value@,
        !applied(m, KVCommand::Delete(key)).contains_key(key@),
        other != key@ ==> {
            &&& applied(m, KVCommand::Put(key, value)).contains_key(other) == m.contains_key(other)
            &&& applied(m, KVCommand::Delete(key)).contains_key(other) == m.contains_key(other)
            &&& m.contains_key(other) ==> {
                &&& applied(m, KVCommand::Put(key, value))[other] == m[other]
                &&& applied(m, KVCommand::Delete(key))[other] == m[other]
            }
        },
{
}

/// A compare-and-swap takes place exactly where the store has the expected value under the key: it
/// then says `ok` and the store has the new value there and is otherwise as it was. In every other
/// case it says `conflict` and leaves the store as it is.
pub proof fn law_swap_takes_place_where_the_value_is_expected(
    m: Map<Seq<char>, Seq<char>>,
    key: String,
    expected: String,
    new_value: String,
)
    ensures
        ({
            let cas = KVCommand::Cas(key, expected, new_value);
            if m.contains_key(key@) && m[key@] == expected@ {
                &&& answer(m, cas) == Some(Some("ok"@))
                &&& applied(m, cas) == m.insert(key@, new_value@)
            } else {
                &&& answer(m, cas) == Some(Some("conflict"@))
                &&& applied(m, cas) == m
            }
        }),
{
}

/// The image is written anew after every put and every delete, after no get, and after a
/// compare-and-swap exactly where it found the expected value.
pub proof fn law_image_is_written_after_every_write(
    m: Map<Seq<char>, Seq<char>>,
    key: String,
    value: String,
    expected: String,
)
    ensures
        persists(m, KVCommand::Put(key, value)),
        persists(m, KVCommand::Delete(key)),
        !persists(m, KVCommand::Get(key)),
        persists(m, KVCommand::Cas(key, expected, value)) <==> m.contains_key(key@) && m[key@]
            == expected@,
{
}

/// A command that changes the store has the image written.
pub proof fn law_change_is_written(m: Map<Seq<char>, Seq<char>>, command: KVCommand)
    requires
        applied(m, command) != m,
    ensures
        persists(m, command),
{
}

/// Without an image, and with one that cannot be read, the store starts empty; with any other it
/// holds the members of the image.
pub proof fn law_store_starts_from_its_image(image: Seq<char>)
    ensures
        loaded(None) == Map::<Seq<char>, Seq<char>>::empty(),
        json_strings(image) is None ==> loaded(Some(image)) == Map::<
            Seq<char>,
            Seq<char>,
        >::empty(),
        json_strings(image) is Some ==> loaded(Some(image)) == json_strings(image)->0,
{
}

/// The view of an answer is there where the answer is, and has the characters of its value, where
/// it has one.
pub proof fn law_answer_view_keeps_the_value(a: Option<Option<String>>, value: String)
    ensures
        answer_view(a) is Some <==> a is Some,
        answer_view(Some(None)) == Some(None::<Seq<char>>),
        answer_view(Some(Some(value))) == Some(Some(value@)),
{
}

/// The key that a command is about is the one that it names.
pub proof fn law_command_is_about_the_key_it_names(key: String, value: String, expected: String)
    ensures
        key_of(KVCommand::Put(key, value)) == key@,
        key_of(KVCommand::Delete(key)) == key@,
        key_of(KVCommand::Get(key)) == key@,
        key_of(KVCommand::Cas(key, expected, value)) == key@,
{
}

} // verus!
