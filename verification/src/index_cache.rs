//! The block indexes of the sub-files, read through a cache that forgets the
//! line used longest ago.

use crate::deserializer::{big_endian_5, Deserializer};
use crate::errors::{ErrorKind, MapFileException};
use crate::header::{fold_to_32, identity_hash, SubFileParameter, BYTES_PER_INDEX_ENTRY};
use crate::reader::{read_exact, spec_read_exact};
use lru::LruCache;
use vstd::prelude::*;

verus! {

/// The number of index entries in one line of the cache.
pub const INDEX_ENTRIES_PER_BLOCK: i64 = 128;

/// The size in bytes of one line of the cache.
pub const SIZE_OF_INDEX_BLOCK: i64 = 640;

/// The largest number of lines that a cache holds.
pub const INDEX_CACHE_CAPACITY_MAX: usize = 1048576;

/// What names a line of the cache: start address, size and base zoom level
/// of the sub-file, and the number of the line in the sub-file's index.
pub type LineKey = (i64, i64, u8, i64);

/// A line of the cache: the start and the end of the index that it was read
/// from, and its bytes.
pub type Line = (i64, i64, Vec<u8>);

/// What a line holds.
pub type LineView = (i64, i64, Seq<u8>);

/// `lru::DefaultHasher`, the hasher of an `LruCache` that is given no other.
/// Nothing is claimed of it.
#[verifier::external_type_specification]
#[verifier::external_body]
pub struct ExDefaultHasher(lru::DefaultHasher);

/// `lru::LruCache`, a map of bounded size that forgets the entry used longest
/// ago. Nothing is known of what is inside a value but what `lru_entries`
/// and `lru_capacity` name.
#[verifier::external_type_specification]
#[verifier::external_body]
#[verifier::reject_recursive_types(K)]
#[verifier::reject_recursive_types(V)]
#[verifier::reject_recursive_types(S)]
pub struct ExLruCache<K, V, S>(lru::LruCache<K, V, S>);

/// The keys and lines that an `LruCache` holds, from the one used last to the
/// one used longest ago.
pub uninterp spec fn lru_entries(cache: LruCache<LineKey, Line>) -> Seq<(LineKey, LineView)>;

/// The number of lines that an `LruCache` was made to hold at most.
pub uninterp spec fn lru_capacity(cache: LruCache<LineKey, Line>) -> nat;

/// The index at or after `from` of the first line that `key` names.
pub open spec fn first_index_of(entries: Seq<(LineKey, LineView)>, key: LineKey, from: int)
    -> Option<int>
    decreases entries.len() - from,
{
    if from < 0 || from >= entries.len() {
        None
    } else if entries[from].0 == key {
        Some(from)
    } else {
        first_index_of(entries, key, from + 1)
    }
}

/// The lines after the one at `index` was used: it has moved to the front.
pub open spec fn touched(entries: Seq<(LineKey, LineView)>, index: int) -> Seq<
    (LineKey, LineView),
> {
    seq![entries[index]] + entries.remove(index)
}

/// The line that `key` names, if there is one.
pub open spec fn line_of(entries: Seq<(LineKey, LineView)>, key: LineKey) -> Option<LineView> {
    match first_index_of(entries, key, 0) {
        Some(index) => Some(entries[index].1),
        None => None,
    }
}

/// The lines after the line that `key` names was used, if there is one.
pub open spec fn used(entries: Seq<(LineKey, LineView)>, key: LineKey) -> Seq<
    (LineKey, LineView),
> {
    match first_index_of(entries, key, 0) {
        Some(index) => touched(entries, index),
        None => entries,
    }
}

/// What a line that may be absent holds.
pub open spec fn line_view(line: Option<Line>) -> Option<LineView> {
    match line {
        Some(line) => Some((line.0, line.1, line.2@)),
        None => None,
    }
}

/// The lines after `line` was put under `key` into a cache of the given
/// capacity, which is at least one: the new line stands at the front; it
/// replaces the line that `key` named or, where there was none and the cache
/// was full, the line used longest ago.
pub open spec fn inserted(
    entries: Seq<(LineKey, LineView)>,
    capacity: nat,
    key: LineKey,
    line: LineView,
) -> Seq<(LineKey, LineView)> {
    match first_index_of(entries, key, 0) {
        Some(index) => seq![(key, line)] + entries.remove(index),
        None => if entries.len() == capacity && capacity > 0 {
            seq![(key, line)] + entries.drop_last()
        } else {
            seq![(key, line)] + entries
        },
    }
}

/// Makes a cache by `LruCache::new`: it is empty and holds at most `capacity`
/// lines. The capacity must not be zero, and it is limited because room for
/// that many lines is set aside at once.
#[verifier::external_body]
fn lru_new(capacity: usize) -> (cache: LruCache<LineKey, Line>)
    requires
        0 < capacity <= INDEX_CACHE_CAPACITY_MAX,
    ensures
        lru_entries(cache) == Seq::<(LineKey, LineView)>::empty(),
        lru_capacity(cache) == capacity,
{
    LruCache::new(std::num::NonZeroUsize::new(capacity).unwrap())
}

/// Looks a line up by `LruCache::get` and copies it: the line that the key
/// names, if there is one, which thereby moves to the front while the other
/// lines keep their order.
#[verifier::external_body]
fn lru_get(cache: &mut LruCache<LineKey, Line>, key: &LineKey) -> (found: Option<Line>)
    ensures
        line_view(found) == line_of(lru_entries(*old(cache)), *key),
        lru_entries(*final(cache)) == used(lru_entries(*old(cache)), *key),
        lru_capacity(*final(cache)) == lru_capacity(*old(cache)),
{
    cache.get(key).cloned()
}

/// Stores a line by `LruCache::put`: the line stands at the front, in place
/// of the line of the same key or, in a full cache without such a line, of
/// the line used longest ago.
#[verifier::external_body]
fn lru_put(cache: &mut LruCache<LineKey, Line>, key: LineKey, line: Line)
    ensures
        lru_capacity(*final(cache)) == lru_capacity(*old(cache)),
        lru_entries(*final(cache)) == inserted(
            lru_entries(*old(cache)),
            lru_capacity(*old(cache)),
            key,
            (line.0, line.1, line.2@),
        ),
{
    cache.put(key, line);
}

/// Counts the lines that a cache holds by `LruCache::len`.
#[verifier::external_body]
fn lru_len(cache: &LruCache<LineKey, Line>) -> (count: usize)
    ensures
        count == lru_entries(*cache).len(),
{
    cache.len()
}

/// Asks by `LruCache::contains` whether a key names a line of a cache. The
/// cache stays as it is: no line counts as used.
#[verifier::external_body]
fn lru_contains(cache: &LruCache<LineKey, Line>, key: &LineKey) -> (found: bool)
    ensures
        found == (line_of(lru_entries(*cache), *key) is Some),
{
    cache.contains(key)
}

/// Empties a cache by `LruCache::clear`: it holds no line and keeps its
/// capacity.
#[verifier::external_body]
fn lru_clear(cache: &mut LruCache<LineKey, Line>)
    ensures
        lru_capacity(*final(cache)) == lru_capacity(*old(cache)),
        lru_entries(*final(cache)) == Seq::<(LineKey, LineView)>::empty(),
{
    cache.clear();
}

/// The hash of a key: that of the sub-file and the folded number of the
/// line, in wrapping 32-bit arithmetic.
pub open spec fn key_hash(sub_file_hash: i32, index_block_number: i64) -> i32 {
    7i32.wrapping_mul(31).wrapping_add(sub_file_hash).wrapping_mul(31).wrapping_add(
        fold_to_32(index_block_number),
    )
}

/// Names a line of the cache by the sub-file and the number of the line in
/// its index. Keys of the same sub-file and line have the same hash.
#[derive(Debug, Clone, Copy)]
pub struct IndexCacheEntryKey {
    pub sub_file_parameter: SubFileParameter,
    pub index_block_number: i64,
    pub hash_code_value: i32,
}

impl IndexCacheEntryKey {
    /// The key of a line of a sub-file, with its hash.
    pub fn new(sub_file_parameter: SubFileParameter, index_block_number: i64) -> (key: Self)
        ensures
            key.sub_file_parameter == sub_file_parameter,
            key.index_block_number == index_block_number,
            key.hash_code_value == key_hash(
                identity_hash(
                    sub_file_parameter.start_address,
                    sub_file_parameter.sub_file_size,
                    sub_file_parameter.base_zoom_level,
                ),
                index_block_number,
            ),
    {
        let mut key = IndexCacheEntryKey {
            sub_file_parameter,
            index_block_number,
            hash_code_value: 0,
        };
        key.hash_code_value = key.calculate_hash_code();
        key
    }

    /// The hash of the key.
    pub fn calculate_hash_code(&self) -> (hash: i32)
        ensures
            hash == key_hash(
                identity_hash(
                    self.sub_file_parameter.start_address,
                    self.sub_file_parameter.sub_file_size,
                    self.sub_file_parameter.base_zoom_level,
                ),
                self.index_block_number,
            ),
    {
        let mut result: i32 = 7i32;
        result = result.wrapping_mul(31).wrapping_add(self.sub_file_parameter.hash_code());
        let block_hash: i32 = #[verifier::truncate]
        ((self.index_block_number ^ (self.index_block_number >> 32)) as i32);
        result = result.wrapping_mul(31).wrapping_add(block_hash);
        result
    }

    /// What tells this key from others: the sub-file's start address, size
    /// and base zoom level, and the number of the line.
    pub fn identity(&self) -> (identity: LineKey)
        ensures
            identity == (
                self.sub_file_parameter.start_address,
                self.sub_file_parameter.sub_file_size,
                self.sub_file_parameter.base_zoom_level,
                self.index_block_number,
            ),
    {
        (
            self.sub_file_parameter.start_address,
            self.sub_file_parameter.sub_file_size,
            self.sub_file_parameter.base_zoom_level,
            self.index_block_number,
        )
    }
}

/// Where in the file the line of the index begins that holds the entry of a
/// block.
pub open spec fn index_block_position(sub_file: SubFileParameter, block_number: int) -> int {
    sub_file.index_start_address + (block_number / 128) * 640
}

/// The size of that line: 640 bytes, or what is left of the index.
pub open spec fn index_block_size(sub_file: SubFileParameter, block_number: int) -> int {
    let left = sub_file.index_end_address - index_block_position(sub_file, block_number);
    if left < 640 {
        left
    } else {
        640
    }
}

/// The entry in a line of the index for a block: five bytes, most
/// significant first, at five times the block's place in the line; zero
/// where the line ends before the entry does.
pub open spec fn entry_in_block(block: Seq<u8>, block_number: int) -> i64 {
    let offset = (block_number % 128) * 5;
    if offset + 5 <= block.len() {
        big_endian_5(block, offset) as i64
    } else {
        0
    }
}

/// The index entry of a block of a sub-file in the file `source`.
///
/// A block number outside the sub-file fails with `InvalidRange`, which
/// carries it; so does an index that ends at or before the line of the
/// entry. A line before the start of the file fails with `IoError`. A line
/// that the file ends in gives zero.
pub open spec fn spec_index_entry(source: Seq<u8>, sub_file: SubFileParameter, block_number: i64)
    -> Result<i64, MapFileException> {
    if block_number < 0 || block_number >= sub_file.number_of_blocks {
        Err(MapFileException { kind: ErrorKind::InvalidRange, value: block_number })
    } else if index_block_size(sub_file, block_number as int) <= 0 {
        Err(MapFileException { kind: ErrorKind::InvalidRange, value: block_number })
    } else if index_block_position(sub_file, block_number as int) < 0 {
        Err(MapFileException::of(ErrorKind::IoError))
    } else {
        match spec_read_exact(
            source,
            index_block_position(sub_file, block_number as int),
            index_block_size(sub_file, block_number as int),
        ) {
            Some(block) => Ok(entry_in_block(block, block_number as int)),
            None => Ok(0),
        }
    }
}

/// The key of the line that holds the entry of a block.
pub open spec fn line_key(sub_file: SubFileParameter, block_number: int) -> LineKey {
    (
        sub_file.start_address,
        sub_file.sub_file_size,
        sub_file.base_zoom_level,
        (block_number / 128) as i64,
    )
}

/// A line holds the bytes of the file at the place that its key and its
/// index bounds give.
pub open spec fn line_is_true(source: Seq<u8>, key: LineKey, line: LineView) -> bool {
    let position = line.0 + key.3 * 640;
    let left = line.1 - position;
    let size = if left < 640 {
        left
    } else {
        640
    };
    &&& 0 <= position
    &&& 0 < size
    &&& position + size <= source.len()
    &&& line.2 == source.subrange(position, position + size)
}

/// Every line holds the bytes of the file at its place.
pub open spec fn all_true(source: Seq<u8>, entries: Seq<(LineKey, LineView)>) -> bool {
    forall|i: int|
        0 <= i < entries.len() ==> line_is_true(source, (#[trigger] entries[i]).0, entries[i].1)
}

/// Using a line keeps all lines true.
pub proof fn lemma_touched_true(source: Seq<u8>, entries: Seq<(LineKey, LineView)>, index: int)
    requires
        all_true(source, entries),
        0 <= index < entries.len(),
    ensures
        all_true(source, touched(entries, index)),
{
    let after = touched(entries, index);
    assert forall|i: int| 0 <= i < after.len() implies line_is_true(
        source,
        (#[trigger] after[i]).0,
        after[i].1,
    ) by {
        if i == 0 {
            assert(after[i] == entries[index]);
        } else if i - 1 < index {
            assert(after[i] == entries[i - 1]);
        } else {
            assert(after[i] == entries[i]);
        }
    }
}

/// Putting a true line keeps all lines true.
pub proof fn lemma_inserted_true(
    source: Seq<u8>,
    entries: Seq<(LineKey, LineView)>,
    capacity: nat,
    key: LineKey,
    line: LineView,
)
    requires
        all_true(source, entries),
        line_is_true(source, key, line),
    ensures
        all_true(source, inserted(entries, capacity, key, line)),
{
    let after = inserted(entries, capacity, key, line);
    lemma_first_index_of(entries, key, 0);
    assert forall|i: int| 0 <= i < after.len() implies line_is_true(
        source,
        (#[trigger] after[i]).0,
        after[i].1,
    ) by {
        if i == 0 {
            assert(after[i] == (key, line));
        } else {
            match first_index_of(entries, key, 0) {
                Some(index) => {
                    if i - 1 < index {
                        assert(after[i] == entries[i - 1]);
                    } else {
                        assert(after[i] == entries[i]);
                    }
                },
                None => {
                    assert(after[i] == entries[i - 1]);
                },
            }
        }
    }
}

/// What the cache does with its lines when the entry of a block is asked
/// for. A line under the block's key that was read from the same index is
/// used and moves to the front. Otherwise the line is read from the file and
/// put into the cache; where that cannot be done the lines stay as they
/// were, except that a line under the key from another index has moved to
/// the front.
pub open spec fn lines_after_lookup(
    entries: Seq<(LineKey, LineView)>,
    capacity: nat,
    source: Seq<u8>,
    sub_file: SubFileParameter,
    block_number: i64,
) -> Seq<(LineKey, LineView)> {
    if block_number < 0 || block_number >= sub_file.number_of_blocks {
        entries
    } else {
        let key = line_key(sub_file, block_number as int);
        let after_use = used(entries, key);
        if line_of(entries, key) matches Some(line) && line.0 == sub_file.index_start_address
            && line.1 == sub_file.index_end_address {
            after_use
        } else if index_block_size(sub_file, block_number as int) <= 0 || index_block_position(
            sub_file,
            block_number as int,
        ) < 0 {
            after_use
        } else {
            match spec_read_exact(
                source,
                index_block_position(sub_file, block_number as int),
                index_block_size(sub_file, block_number as int),
            ) {
                Some(block) => inserted(
                    after_use,
                    capacity,
                    key,
                    (sub_file.index_start_address, sub_file.index_end_address, block),
                ),
                None => after_use,
            }
        }
    }
}

/// A cache of lines of the block indexes of a map file, which forgets the
/// line used longest ago when it is full.
pub struct IndexCache<'a> {
    map: LruCache<LineKey, Line>,
    file_channel: &'a [u8],
}

impl<'a> IndexCache<'a> {
    /// Every line holds the bytes of the file at its place. A cache made by
    /// `new` is so, and every method keeps it so.
    pub closed spec fn wf(&self) -> bool {
        all_true(self.file_channel@, lru_entries(self.map))
    }

    /// The file that the cache reads.
    pub closed spec fn source(&self) -> Seq<u8> {
        self.file_channel@
    }

    /// The lines that the cache holds, the one used last first.
    pub closed spec fn entries(&self) -> Seq<(LineKey, LineView)> {
        lru_entries(self.map)
    }

    /// The number of lines that the cache holds at most.
    pub closed spec fn capacity(&self) -> nat {
        lru_capacity(self.map)
    }

    /// The capacity that a cache gets when `capacity` is asked for: at least
    /// one line, at most 1 048 576.
    pub open spec fn granted_capacity(capacity: usize) -> nat {
        if capacity == 0 {
            1
        } else if capacity > INDEX_CACHE_CAPACITY_MAX {
            INDEX_CACHE_CAPACITY_MAX as nat
        } else {
            capacity as nat
        }
    }

    /// An empty cache over the file `file_channel`.
    pub fn new(file_channel: &'a [u8], capacity: usize) -> (cache: Self)
        ensures
            cache.wf(),
            cache.source() == file_channel@,
            cache.entries() == Seq::<(LineKey, LineView)>::empty(),
            cache.capacity() == Self::granted_capacity(capacity),
    {
        let capacity: usize = if capacity == 0 {
            1
        } else if capacity > INDEX_CACHE_CAPACITY_MAX {
            INDEX_CACHE_CAPACITY_MAX
        } else {
            capacity
        };
        IndexCache { map: lru_new(capacity), file_channel }
    }

    /// The number of lines that the cache holds.
    pub fn len(&self) -> (count: usize)
        ensures
            count == self.entries().len(),
    {
        lru_len(&self.map)
    }

    /// Whether the cache holds a line under the key of a block of a
    /// sub-file; the order of the lines stays.
    pub fn holds_line(&self, sub_file_parameter: &SubFileParameter, block_number: i64) -> (found:
        bool)
        ensures
            found == (block_number >= 0 && line_of(
                self.entries(),
                line_key(*sub_file_parameter, block_number as int),
            ) is Some),
    {
        if block_number < 0 {
            return false;
        }
        let key = IndexCacheEntryKey::new(
            *sub_file_parameter,
            block_number / INDEX_ENTRIES_PER_BLOCK,
        );
        lru_contains(&self.map, &key.identity())
    }

    /// Forgets every line.
    pub fn destroy(&mut self)
        ensures
            final(self).wf(),
            final(self).source() == old(self).source(),
            final(self).capacity() == old(self).capacity(),
            final(self).entries() == Seq::<(LineKey, LineView)>::empty(),
    {
        lru_clear(&mut self.map);
    }

    /// The index entry of a block of a sub-file: what the file holds for it,
    /// whatever the cache holds. A line of the cache is used only where it
    /// was read from the index of this very descriptor; a line that another
    /// descriptor of the sub-file left is read anew.
    pub fn get_index_entry(&mut self, sub_file_parameter: &SubFileParameter, block_number: i64)
        -> (r: Result<i64, MapFileException>)
        requires
            old(self).wf(),
        ensures
            final(self).wf(),
            r == spec_index_entry(old(self).source(), *sub_file_parameter, block_number),
            final(self).source() == old(self).source(),
            final(self).capacity() == old(self).capacity(),
            final(self).entries() == lines_after_lookup(
                old(self).entries(),
                old(self).capacity(),
                old(self).source(),
                *sub_file_parameter,
                block_number,
            ),
    {
        if block_number < 0 || block_number >= sub_file_parameter.number_of_blocks {
            return Err(MapFileException::new(ErrorKind::InvalidRange, block_number));
        }
        let index_block_number: i64 = block_number / INDEX_ENTRIES_PER_BLOCK;
        let key = IndexCacheEntryKey::new(*sub_file_parameter, index_block_number);
        let identity: LineKey = key.identity();
        let index_entry_in_block: i64 = block_number % INDEX_ENTRIES_PER_BLOCK;
        let address_in_index_block: usize = (index_entry_in_block
            * BYTES_PER_INDEX_ENTRY as i64) as usize;

        let ghost before = lru_entries(self.map);
        let cached: Option<Line> = lru_get(&mut self.map, &identity);
        proof {
            lemma_first_index_of(before, identity, 0);
            if let Some(index) = first_index_of(before, identity, 0) {
                lemma_touched_true(self.file_channel@, before, index);
            }
        }
        if let Some(line) = cached {
            if line.0 == sub_file_parameter.index_start_address && line.1
                == sub_file_parameter.index_end_address {
                return Ok(entry_of(&line.2, address_in_index_block, Ghost(block_number as int)));
            }
        }
        // the line has to be read from the file

        let index_block_position: i128 = sub_file_parameter.index_start_address as i128
            + index_block_number as i128 * SIZE_OF_INDEX_BLOCK as i128;
        let remaining_index_size: i128 = sub_file_parameter.index_end_address as i128
            - index_block_position;
        let index_block_size: i128 = if remaining_index_size < SIZE_OF_INDEX_BLOCK as i128 {
            remaining_index_size
        } else {
            SIZE_OF_INDEX_BLOCK as i128
        };
        if index_block_size <= 0 {
            return Err(MapFileException::new(ErrorKind::InvalidRange, block_number));
        }
        if index_block_position < 0 {
            return Err(MapFileException::new(ErrorKind::IoError, 0));
        }
        if index_block_position > self.file_channel.len() as i128 {
            // the file ends before the line
            return Ok(0);
        }
        let index_block: Vec<u8> = match read_exact(
            self.file_channel,
            index_block_position as usize,
            index_block_size as usize,
        ) {
            Some(bytes) => bytes,
            None => {
                // the file ends in the line
                return Ok(0);
            },
        };
        let entry: i64 = entry_of(&index_block, address_in_index_block, Ghost(block_number as int));
        let ghost after_use = lru_entries(self.map);
        let ghost stored = (
            sub_file_parameter.index_start_address,
            sub_file_parameter.index_end_address,
            index_block@,
        );
        proof {
            lemma_inserted_true(
                self.file_channel@,
                after_use,
                lru_capacity(self.map),
                identity,
                stored,
            );
        }
        lru_put(
            &mut self.map,
            identity,
            (
                sub_file_parameter.index_start_address,
                sub_file_parameter.index_end_address,
                index_block,
            ),
        );
        Ok(entry)
    }
}

/// What `first_index_of` finds names the key, and nothing before it does.
pub proof fn lemma_first_index_of(entries: Seq<(LineKey, LineView)>, key: LineKey, from: int)
    requires
        0 <= from,
    ensures
        match first_index_of(entries, key, from) {
            Some(index) => from <= index < entries.len() && entries[index].0 == key,
            None => forall|i: int| from <= i < entries.len() ==> entries[i].0 != key,
        },
    decreases entries.len() - from,
{
    if from < entries.len() && entries[from].0 != key {
        lemma_first_index_of(entries, key, from + 1);
    }
}

/// The entry at `address` of a line of the index.
fn entry_of(index_block: &Vec<u8>, address: usize, Ghost(block_number): Ghost<int>) -> (entry: i64)
    requires
        address == (block_number % 128) * 5,
    ensures
        entry == entry_in_block(index_block@, block_number),
{
    if index_block.len() < 5 || address > index_block.len() - 5 {
        return 0;
    }
    Deserializer::get_five_bytes_long(index_block.as_slice(), address)
}

} // verus!
