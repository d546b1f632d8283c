//! The cache buster: the table from the original paths of the assets to
//! their fingerprinted paths, with the lookups that the site makes in it.

use crate::asset_table::{is_sorted, map_of, pairs_of, AssetTable, Pair};
use crate::cache_control::{
    forever_cache_fields, forever_cache_headers, has_room, header_fields, never_cache_fields,
    never_cache_headers, stripped_apart_from_policy, CacheControlError,
};
use crate::clock::{has_rfc2822_text, ONE_YEAR};
use crate::path::{file_name, file_name_of, is_fingerprinted_form};
use crate::snapshot::{
    json_pretty_of, snapshot_from, snapshot_path_of, to_json_pretty, Snapshot, SnapshotError,
};
use crate::text::{ends_with, has_prefix, has_suffix, join2, starts_with, text_eq};
use crate::walker::AssetWalk;
use http::{HeaderMap, HeaderValue};
use vstd::prelude::*;
use vstd::string::StringExecFns;

verus! {

/// Why a walk could not be taken over.
#[derive(Clone, Copy, Debug, PartialEq, Eq, Structural)]
pub enum GenCacheError {
    /// The walk started at another directory than the asset directory.
    OtherDirectory,
    /// The walk is not over.
    UnfinishedWalk,
}

/// A script whose comment is to name the new file name of its source map.
#[derive(Clone, Debug)]
pub struct SourceMapUpdate {
    /// The fingerprinted path of the script.
    pub script: String,
    /// The file name of the fingerprinted source map.
    pub map_file_name: String,
}

/// An update as plain values.
pub struct UpdateView {
    pub script: Seq<char>,
    pub map_file_name: Seq<char>,
}

impl SourceMapUpdate {
    /// The update as plain values.
    pub open spec fn view(&self) -> UpdateView {
        UpdateView { script: self.script@, map_file_name: self.map_file_name@ }
    }
}

/// The updates as plain values.
pub open spec fn updates_view(updates: Seq<SourceMapUpdate>) -> Seq<UpdateView> {
    Seq::new(updates.len(), |i: int| updates[i]@)
}

/// What a lookup of `path` gives: the fingerprinted path where `path` lies
/// under the asset directory and the table holds it, and `path` itself
/// otherwise.
pub open spec fn lookup_of(
    directory: Seq<char>,
    table: Map<Seq<char>, Seq<char>>,
    path: Seq<char>,
) -> Seq<char> {
    if has_prefix(path, directory) && table.contains_key(path) {
        table[path]
    } else {
        path
    }
}

/// A path that does not lie under the asset directory comes back as it is,
/// whatever the table holds.
pub proof fn lemma_lookup_outside_directory(
    directory: Seq<char>,
    table: Map<Seq<char>, Seq<char>>,
    path: Seq<char>,
)
    requires
        !has_prefix(path, directory),
    ensures
        lookup_of(directory, table, path) == path,
{
}

/// A path that the table does not hold comes back as it is.
pub proof fn lemma_lookup_miss(
    directory: Seq<char>,
    table: Map<Seq<char>, Seq<char>>,
    path: Seq<char>,
)
    requires
        !table.contains_key(path),
    ensures
        lookup_of(directory, table, path) == path,
{
}

/// A path under the asset directory that the table holds comes back as the
/// table has it.
pub proof fn lemma_lookup_hit(
    directory: Seq<char>,
    table: Map<Seq<char>, Seq<char>>,
    path: Seq<char>,
)
    requires
        has_prefix(path, directory),
        table.contains_key(path),
    ensures
        lookup_of(directory, table, path) == table[path],
{
}

/// Whether `path` names a script: it ends in `.js`.
pub open spec fn is_script(path: Seq<char>) -> bool {
    has_suffix(path, ".js"@)
}

/// The path under which the source map of the script `path` is kept.
pub open spec fn map_path_of(path: Seq<char>) -> Seq<char> {
    path + ".map"@
}

/// The updates that the first pairs of a table ask for, in their order: one
/// for each script whose source map the table holds too.
pub open spec fn updates_of(pairs: Seq<Pair>, table: Map<Seq<char>, Seq<char>>) -> Seq<
    UpdateView,
>
    decreases pairs.len(),
{
    if pairs.len() == 0 {
        Seq::empty()
    } else {
        let earlier = updates_of(pairs.drop_last(), table);
        let last = pairs.last();
        if is_script(last.0) && table.contains_key(map_path_of(last.0)) {
            earlier.push(
                UpdateView {
                    script: last.1,
                    map_file_name: file_name_of(table[map_path_of(last.0)]),
                },
            )
        } else {
            earlier
        }
    }
}

/// Every script whose source map the table holds too gets its update.
pub proof fn lemma_linked_script_is_updated(
    pairs: Seq<Pair>,
    table: Map<Seq<char>, Seq<char>>,
    i: int,
)
    requires
        0 <= i < pairs.len(),
        is_script(pairs[i].0),
        table.contains_key(map_path_of(pairs[i].0)),
    ensures
        updates_of(pairs, table).contains(
            UpdateView {
                script: pairs[i].1,
                map_file_name: file_name_of(table[map_path_of(pairs[i].0)]),
            },
        ),
    decreases pairs.len(),
{
    let wanted = UpdateView {
        script: pairs[i].1,
        map_file_name: file_name_of(table[map_path_of(pairs[i].0)]),
    };
    let earlier = updates_of(pairs.drop_last(), table);
    if i == pairs.len() - 1 {
        assert(earlier.push(wanted).last() == wanted);
    } else {
        lemma_linked_script_is_updated(pairs.drop_last(), table, i);
        let at = earlier.index_of(wanted);
        assert(earlier[at] == wanted);
        assert(updates_of(pairs, table)[at] == wanted);
    }
}

/// Every update is that of a script whose source map the table holds too.
pub proof fn lemma_update_has_its_script(
    pairs: Seq<Pair>,
    table: Map<Seq<char>, Seq<char>>,
    update: UpdateView,
)
    requires
        updates_of(pairs, table).contains(update),
    ensures
        exists|i: int|
            0 <= i < pairs.len() && is_script(#[trigger] pairs[i].0) && table.contains_key(
                map_path_of(pairs[i].0),
            ) && update.script == pairs[i].1 && update.map_file_name == file_name_of(
                table[map_path_of(pairs[i].0)],
            ),
    decreases pairs.len(),
{
    if pairs.len() > 0 {
        let earlier = updates_of(pairs.drop_last(), table);
        let last = pairs.last();
        let at = updates_of(pairs, table).index_of(update);
        if at < earlier.len() {
            assert(earlier[at] == update);
            lemma_update_has_its_script(pairs.drop_last(), table, update);
            let i = choose|i: int|
                0 <= i < pairs.drop_last().len() && is_script(#[trigger] pairs.drop_last()[i].0)
                    && table.contains_key(map_path_of(pairs.drop_last()[i].0)) && update.script
                    == pairs.drop_last()[i].1 && update.map_file_name == file_name_of(
                    table[map_path_of(pairs.drop_last()[i].0)],
                );
            assert(pairs[i] == pairs.drop_last()[i]);
        } else {
            assert(is_script(pairs[pairs.len() - 1].0));
        }
    }
}

/// The lines that list `pairs`, each behind a line break and a tab.
pub open spec fn listing_of(pairs: Seq<Pair>) -> Seq<char>
    decreases pairs.len(),
{
    if pairs.len() == 0 {
        Seq::empty()
    } else {
        listing_of(pairs.drop_last()) + "\n\t'"@ + pairs.last().0 + "' -> '"@ + pairs.last().1
            + "'"@
    }
}

/// The text that describes a cache buster.
pub open spec fn description_of(directory: Seq<char>, pairs: Seq<Pair>) -> Seq<char> {
    "CacheBuster (asset directory: '"@ + directory + "'):"@ + listing_of(pairs)
}

/// The table from original asset paths to fingerprinted asset paths.
#[derive(Clone, Debug)]
pub struct CacheBuster {
    asset_directory: String,
    cache: AssetTable,
}

impl CacheBuster {
    /// The directory under which the assets lie.
    pub closed spec fn directory(&self) -> Seq<char> {
        self.asset_directory@
    }

    /// The table as a map from original path to fingerprinted path.
    pub closed spec fn view(&self) -> Map<Seq<char>, Seq<char>> {
        self.cache@
    }

    /// The pairs of the table in the order of the original paths.
    pub closed spec fn pairs(&self) -> Seq<Pair> {
        self.cache.pairs()
    }

    /// What every cache buster keeps: the pairs ascend strictly by original
    /// path and stand for the map, every original path lies under the asset
    /// directory, and every file stands under its fingerprinted path.
    pub closed spec fn wf(&self) -> bool {
        &&& self.cache.wf()
        &&& is_sorted(self.cache.pairs())
        &&& forall|path: Seq<char>| #[trigger]
            self.cache@.contains_key(path) ==> is_fingerprinted_form(path, self.cache@[path])
        &&& forall|path: Seq<char>| #[trigger]
            self.cache@.contains_key(path) ==> has_prefix(path, self.asset_directory@)
    }

    /// In a well-formed cache buster the pairs are sorted, they stand for
    /// the map, every key lies under the asset directory, and every value is
    /// the fingerprinted form of its key.
    pub proof fn lemma_wf(&self)
        requires
            self.wf(),
        ensures
            is_sorted(self.pairs()),
            self@ == map_of(self.pairs()),
            forall|path: Seq<char>| #[trigger]
                self@.contains_key(path) ==> is_fingerprinted_form(path, self@[path]),
            forall|path: Seq<char>| #[trigger]
                self@.contains_key(path) ==> has_prefix(path, self.directory()),
    {
    }

    /// Every entry of the table is found again by a lookup: the lookup of
    /// an original path that the table holds gives its fingerprinted path,
    /// which is never the original path itself.
    pub proof fn lemma_every_entry_is_found(&self, path: Seq<char>)
        requires
            self.wf(),
            self@.contains_key(path),
        ensures
            lookup_of(self.directory(), self@, path) == self@[path],
            self@[path] != path,
    {
        let fingerprint = choose|fingerprint: Seq<char>|
            crate::fingerprint::is_fingerprint(fingerprint) && self@[path]
                == #[trigger] crate::path::fingerprinted_path_of(path, fingerprint);
        crate::path::lemma_fingerprint_can_be_taken_out(path, fingerprint);
    }

    /// A cache buster for the assets under `asset_directory`, with an empty
    /// table.
    pub fn new(asset_directory: &str) -> (buster: Self)
        ensures
            buster.wf(),
            buster.directory() == asset_directory@,
            buster@ == Map::<Seq<char>, Seq<char>>::empty(),
            buster.pairs() == Seq::<Pair>::empty(),
    {
        CacheBuster { asset_directory: asset_directory.to_owned(), cache: AssetTable::new() }
    }

    /// The directory under which the assets lie.
    pub fn asset_directory(&self) -> (directory: &str)
        ensures
            directory@ == self.directory(),
    {
        self.asset_directory.as_str()
    }

    /// Takes over the table of a walk over the asset directory.
    ///
    /// The walk must have started at the asset directory and be over.
    /// Otherwise the table stays as it was: no table that is half built is
    /// ever looked anything up in.
    pub fn gen_cache(&mut self, walk: AssetWalk) -> (done: Result<(), GenCacheError>)
        requires
            old(self).wf(),
            walk.wf(),
        ensures
            final(self).wf(),
            final(self).directory() == old(self).directory(),
            done is Ok <==> walk.root() == old(self).directory() && walk@.finished(),
            done == Err::<(), GenCacheError>(GenCacheError::OtherDirectory) <==> walk.root()
                != old(self).directory(),
            done is Ok ==> final(self)@ == walk@.table,
            done is Err ==> final(self)@ == old(self)@ && final(self).pairs() == old(self).pairs(),
    {
        proof {
            walk.lemma_wf_inv();
        }
        if !text_eq(walk.root_directory(), self.asset_directory.as_str()) {
            return Err(GenCacheError::OtherDirectory);
        }
        match walk.into_table() {
            Some(table) => {
                proof {
                    table.lemma_pairs_sorted();
                }
                self.cache = table;
                Ok(())
            },
            None => Err(GenCacheError::UnfinishedWalk),
        }
    }

    /// The fingerprinted path of an asset.
    ///
    /// A path that does not start with the asset directory is no asset and
    /// comes back as it is, whatever the table holds. A path that the table
    /// does not hold comes back as it is too, so that a reference to it
    /// still leads somewhere.
    pub fn get_file(&self, original_asset_file_path: &str) -> (path: String)
        requires
            self.wf(),
        ensures
            path@ == lookup_of(self.directory(), self@, original_asset_file_path@),
    {
        if !starts_with(original_asset_file_path, self.asset_directory.as_str()) {
            return original_asset_file_path.to_owned();
        }
        match self.cache.get(original_asset_file_path) {
            Some(found) => found.clone(),
            None => original_asset_file_path.to_owned(),
        }
    }

    /// The whole table: each original path with its fingerprinted path, in
    /// the order of the original paths.
    pub fn get_cache(&self) -> (table: Vec<(String, String)>)
        requires
            self.wf(),
        ensures
            pairs_of(table@) == self.pairs(),
            is_sorted(pairs_of(table@)),
            map_of(pairs_of(table@)) == self@,
    {
        self.cache.to_vec()
    }

    /// The snapshot of the table for the directory `output_dir`: the path of
    /// the file `cache-buster.json` in that directory and the table as JSON.
    /// Every table has its snapshot. Writing the file is left to the caller.
    pub fn print_to_file(&self, output_dir: &str) -> (snapshot: Result<Snapshot, SnapshotError>)
        requires
            self.wf(),
        ensures
            snapshot matches Ok(file) && file.path@ == snapshot_path_of(output_dir@)
                && file.contents@ == json_pretty_of(self.pairs()),
    {
        snapshot_from(to_json_pretty(self.cache.entries()), output_dir)
    }

    /// The scripts whose comment has to name a new source map: for every
    /// original path that ends in `.js` and whose source map, the same path
    /// with `.map` behind it, is in the table too, the fingerprinted path of
    /// the script and the file name of the fingerprinted source map. The
    /// updates come in the order of the original paths.
    pub fn update_source_map_references(&self) -> (updates: Vec<SourceMapUpdate>)
        requires
            self.wf(),
        ensures
            updates_view(updates@) == updates_of(self.pairs(), self@),
    {
        let mut updates: Vec<SourceMapUpdate> = Vec::new();
        let mut i: usize = 0;
        proof {
            reveal_strlit(".js");
            reveal_strlit(".map");
            assert(updates_view(updates@) =~= updates_of(self.pairs().take(0), self@));
        }
        while i < self.cache.len()
            invariant
                self.wf(),
                i <= self.pairs().len(),
                updates_view(updates@) == updates_of(self.pairs().take(i as int), self@),
            decreases self.pairs().len() - i,
        {
            let key = self.cache.key_at(i);
            let ghost before = updates_view(updates@);
            let ghost shorter = self.pairs().take(i as int);
            let ghost longer = self.pairs().take(i + 1);
            assert(longer.drop_last() == shorter);
            assert(longer.last() == self.pairs()[i as int]);
            if ends_with(key.as_str(), ".js") {
                let map_path = join2(key.as_str(), ".map");
                match self.cache.get(map_path.as_str()) {
                    Some(map_busted) => {
                        let update = SourceMapUpdate {
                            script: self.cache.value_at(i).clone(),
                            map_file_name: file_name(map_busted.as_str()),
                        };
                        updates.push(update);
                        assert(updates_view(updates@) =~= before.push(update@));
                    },
                    None => {},
                }
            }
            i += 1;
        }
        assert(self.pairs().take(i as int) == self.pairs());
        updates
    }

    /// Marks the response of a route that must never be cached; see
    /// [`never_cache_headers`]. The caller runs the route and hands over the
    /// headers of its response.
    pub fn never_cache_middleware(headers: &mut HeaderMap<HeaderValue>) -> (done: Result<
        (),
        CacheControlError,
    >)
        ensures
            match done {
                Ok(_) => header_fields(*final(headers)) == never_cache_fields(
                    header_fields(*old(headers)),
                ),
                Err(error) => error == CacheControlError::HeaderRefused
                    && stripped_apart_from_policy(
                    header_fields(*old(headers)),
                    header_fields(*final(headers)),
                ),
            },
            has_room(header_fields(*old(headers)), 3) ==> done is Ok,
    {
        never_cache_headers(headers)
    }

    /// Marks the response of a route that serves fingerprinted assets as
    /// good for a year from `now`, the seconds since the start of 1970 at
    /// which the response was made; see [`forever_cache_headers`]. The
    /// caller runs the route, reads the clock and hands over the headers of
    /// the response.
    pub fn forever_cache_middleware(headers: &mut HeaderMap<HeaderValue>, now: i64) -> (done:
        Result<(), CacheControlError>)
        ensures
            match done {
                Ok(_) => header_fields(*final(headers)) == forever_cache_fields(
                    header_fields(*old(headers)),
                    now as int,
                ),
                Err(CacheControlError::ExpiresOutOfRange) => header_fields(*final(headers))
                    == header_fields(*old(headers)),
                Err(CacheControlError::HeaderRefused) => stripped_apart_from_policy(
                    header_fields(*old(headers)),
                    header_fields(*final(headers)),
                ),
            },
            done == Err::<(), CacheControlError>(CacheControlError::ExpiresOutOfRange)
                <==> !has_rfc2822_text(now + ONE_YEAR),
            has_room(header_fields(*old(headers)), 2) && has_rfc2822_text(now + ONE_YEAR)
                ==> done is Ok,
    {
        forever_cache_headers(headers, now)
    }

    /// The table in words: the asset directory, then one line for each
    /// original path with its fingerprinted path, in the order of the
    /// original paths.
    pub fn to_string(&self) -> (text: String)
        requires
            self.wf(),
        ensures
            text@ == description_of(self.directory(), self.pairs()),
    {
        let mut text = String::from_str("CacheBuster (asset directory: '");
        text.append(self.asset_directory.as_str());
        text.append("'):");
        let ghost head = text@;
        let mut i: usize = 0;
        assert(self.pairs().take(0) =~= Seq::<Pair>::empty());
        assert(text@ =~= head + listing_of(self.pairs().take(0)));
        while i < self.cache.len()
            invariant
                i <= self.pairs().len(),
                head == "CacheBuster (asset directory: '"@ + self.directory() + "'):"@,
                text@ == head + listing_of(self.pairs().take(i as int)),
            decreases self.pairs().len() - i,
        {
            let ghost shorter = self.pairs().take(i as int);
            let ghost longer = self.pairs().take(i + 1);
            assert(longer.drop_last() == shorter);
            assert(longer.last() == self.pairs()[i as int]);
            text.append("\n\t'");
            text.append(self.cache.key_at(i).as_str());
            text.append("' -> '");
            text.append(self.cache.value_at(i).as_str());
            text.append("'");
            i += 1;
            assert(text@ =~= head + listing_of(longer));
        }
        assert(self.pairs().take(i as int) == self.pairs());
        text
    }
}

} // verus!
