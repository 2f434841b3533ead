//! The host functions that hand static assets to scripts: one asset by name,
//! or all assets of a kind by their logical names.
//!
//! Files are read by the caller; what is decided here is which file a name
//! stands for, whether it may be read, and what the script gets.

use vstd::prelude::*;
use crate::confine::{is_within, to_chars, within};
use crate::engine::{
    distinct_names,
    error_words,
    holds_pairs,
    mapping_into_lua,
    runtime_error,
    runtime_prefix,
    table_texts,
};
use crate::error::{DispatchError, DispatchFault};
use crate::response::{pairs_model, text_model};

verus! {

/// The kinds of asset.
#[derive(PartialEq, Eq, Structural, Clone, Copy, Debug)]
pub enum AssetKind {
    Style,
    Script,
}

/// The directory that holds the assets of a kind.
pub open spec fn asset_dir(kind: AssetKind) -> Seq<char> {
    match kind {
        AssetKind::Style => "styles"@,
        AssetKind::Script => "scripts"@,
    }
}

/// The extension of the files of a kind.
pub open spec fn asset_ext(kind: AssetKind) -> Seq<char> {
    match kind {
        AssetKind::Style => ".css"@,
        AssetKind::Script => ".js"@,
    }
}

/// The file of the asset `name` of a kind.
pub open spec fn asset_file(kind: AssetKind, name: Seq<char>) -> Seq<char> {
    asset_dir(kind) + seq!['/'] + name + asset_ext(kind)
}

/// The directory that holds the assets of `kind`.
pub fn directory(kind: AssetKind) -> (dir: &'static str)
    ensures
        dir@ == asset_dir(kind),
{
    match kind {
        AssetKind::Style => "styles",
        AssetKind::Script => "scripts",
    }
}

/// The global name under which scripts find the host function that hands out
/// one asset of `kind` by name.
pub fn single_binding(kind: AssetKind) -> (name: &'static str)
    ensures
        name@ == match kind {
            AssetKind::Style => "getCSS"@,
            AssetKind::Script => "getScript"@,
        },
{
    match kind {
        AssetKind::Style => "getCSS",
        AssetKind::Script => "getScript",
    }
}

/// The global name under which scripts find the host function that hands out
/// all assets of `kind`.
pub fn listing_binding(kind: AssetKind) -> (name: &'static str)
    ensures
        name@ == match kind {
            AssetKind::Style => "getStyles"@,
            AssetKind::Script => "getScripts"@,
        },
{
    match kind {
        AssetKind::Style => "getStyles",
        AssetKind::Script => "getScripts",
    }
}

/// The file of the asset `name` of `kind`, whether or not it may be read.
pub fn asset_path(kind: AssetKind, name: &str) -> (file: String)
    ensures
        file@ == asset_file(kind, name@),
{
    let mut file = String::from_str(directory(kind));
    file.append("/");
    file.append(name);
    match kind {
        AssetKind::Style => file.append(".css"),
        AssetKind::Script => file.append(".js"),
    }
    proof {
        reveal_strlit("/");
        assert("/"@ =~= seq!['/']);
    }
    file
}

/// The file to read for the asset `name` of `kind`: its file where that lies
/// in the directory of the kind, none where the name leads out of it.
pub fn locate(kind: AssetKind, name: &str) -> (file: Option<String>)
    ensures
        match file {
            Some(path) => path@ == asset_file(kind, name@) && within(path@, asset_dir(kind)),
            None => !within(asset_file(kind, name@), asset_dir(kind)),
        },
{
    let path = asset_path(kind, name);
    if is_within(path.as_str(), directory(kind)) {
        Some(path)
    } else {
        None
    }
}

/// What a script gets when it asks for the asset `name` of a kind and reading
/// its file came to `read`: the text, or the words of the failure. A name that
/// leads out of the directory fails as rejected whatever `read` holds.
pub open spec fn asset_outcome(kind: AssetKind, name: Seq<char>, read: Result<Seq<char>, Seq<char>>)
    -> Result<Seq<char>, Seq<char>> {
    if within(asset_file(kind, name), asset_dir(kind)) {
        read
    } else {
        Err((DispatchFault::PathRejected { path: asset_file(kind, name) }).message())
    }
}

/// What the outcome of reading a file stands for.
pub open spec fn read_model(read: Result<String, String>) -> Result<Seq<char>, Seq<char>> {
    match read {
        Ok(text) => Ok(text@),
        Err(cause) => Err(cause@),
    }
}

/// Decides what a script gets for the asset `name` of `kind`, given the
/// outcome of reading its file.
pub fn get_asset(kind: AssetKind, name: &str, read: Result<String, String>) -> (outcome: Result<
    String,
    String,
>)
    ensures
        read_model(outcome) == asset_outcome(kind, name@, read_model(read)),
{
    match locate(kind, name) {
        Some(_) => read,
        None => {
            let error = DispatchError::PathRejected { path: asset_path(kind, name) };
            Err(error.message())
        },
    }
}

/// The host function behind `getCSS`: the text of the style sheet `name`, or
/// a runtime error raised in the script where its file was not read. The
/// error carries the read failure, or the rejection of a name that leads out
/// of the directory.
pub fn get_css(name: &str, read: Result<String, String>) -> (outcome: Result<String, mlua::Error>)
    ensures
        match asset_outcome(AssetKind::Style, name@, read_model(read)) {
            Ok(text) => outcome matches Ok(got) && got@ == text,
            Err(cause) => outcome matches Err(error) && error_words(error) == runtime_prefix()
                + cause,
        },
{
    match get_asset(AssetKind::Style, name, read) {
        Ok(text) => Ok(text),
        Err(cause) => Err(runtime_error(cause)),
    }
}

/// The host function behind `getScript`: the text of the script `name`, or a
/// runtime error raised in the calling script where its file was not read.
/// The error carries the read failure, or the rejection of a name that leads
/// out of the directory.
pub fn get_script(name: &str, read: Result<String, String>) -> (outcome: Result<
    String,
    mlua::Error,
>)
    ensures
        match asset_outcome(AssetKind::Script, name@, read_model(read)) {
            Ok(text) => outcome matches Ok(got) && got@ == text,
            Err(cause) => outcome matches Err(error) && error_words(error) == runtime_prefix()
                + cause,
        },
{
    match get_asset(AssetKind::Script, name, read) {
        Ok(text) => Ok(text),
        Err(cause) => Err(runtime_error(cause)),
    }
}

/// One file of an asset directory.
#[derive(Debug, PartialEq, Eq)]
pub struct AssetFile {
    /// The file's name within the directory.
    pub file_name: String,
    /// The file's text; `None` where it could not be read.
    pub content: Option<String>,
}

/// What an `AssetFile` stands for.
pub struct AssetFileModel {
    pub file_name: Seq<char>,
    pub content: Option<Seq<char>>,
}

impl View for AssetFile {
    type V = AssetFileModel;

    open spec fn view(&self) -> AssetFileModel {
        AssetFileModel { file_name: self.file_name@, content: text_model(self.content) }
    }
}

/// The files that a vector of asset files stands for, in its order.
pub open spec fn files_model(files: Seq<AssetFile>) -> Seq<AssetFileModel> {
    Seq::new(files.len(), |i: int| files[i]@)
}

/// The index of the last dot of `name`, or -1 where it has none.
pub open spec fn last_dot(name: Seq<char>) -> int
    decreases name.len(),
{
    if name.len() == 0 {
        -1
    } else if name.last() == '.' {
        name.len() - 1
    } else {
        last_dot(name.drop_last())
    }
}

/// The logical name of a file: its name without the extension, which is what
/// follows the last dot, and the dot. A name without a dot is its own logical
/// name. A name whose only dot comes first, such as `.css`, is all extension
/// and has the empty logical name, so that the file of the asset `name`
/// always has `name` as its logical name.
pub open spec fn logical_name(file_name: Seq<char>) -> Seq<char> {
    let at = last_dot(file_name);
    if at < 0 {
        file_name
    } else {
        file_name.take(at)
    }
}

/// What a file contributes to the assets of its kind: its logical name with
/// its text, or nothing where it could not be read.
pub open spec fn asset_of(file: AssetFileModel) -> Seq<(Seq<char>, Seq<char>)> {
    match file.content {
        Some(text) => seq![(logical_name(file.file_name), text)],
        None => Seq::empty(),
    }
}

/// The assets that the files of a directory amount to, in the files' order.
pub open spec fn assets_of(files: Seq<AssetFileModel>) -> Seq<(Seq<char>, Seq<char>)>
    decreases files.len(),
{
    if files.len() == 0 {
        Seq::empty()
    } else {
        assets_of(files.drop_last()) + asset_of(files.last())
    }
}

/// The mapping that a list of pairs amounts to: each name with its text, and
/// of pairs that share a name the last one counts.
pub open spec fn mapping_of(pairs: Seq<(Seq<char>, Seq<char>)>) -> Map<Seq<char>, Seq<char>>
    decreases pairs.len(),
{
    if pairs.len() == 0 {
        Map::empty()
    } else {
        mapping_of(pairs.drop_last()).insert(pairs.last().0, pairs.last().1)
    }
}

/// The mapping that a script gets for the files of a directory: the logical
/// name of every file that could be read, with the file's text. Of files that
/// share a logical name the last one counts.
pub open spec fn assets_mapping(files: Seq<AssetFileModel>) -> Map<Seq<char>, Seq<char>> {
    mapping_of(assets_of(files))
}

/// Where the part of `name` from index `n` on holds no dot, the last dot of
/// `name` is that of its first `n` characters.
pub proof fn lemma_last_dot(name: Seq<char>, n: int)
    requires
        0 <= n <= name.len(),
        forall|k: int| n <= k < name.len() ==> name[k] != '.',
    ensures
        last_dot(name) == last_dot(name.take(n)),
    decreases name.len() - n,
{
    if n < name.len() {
        assert(name.drop_last().take(n) =~= name.take(n));
        lemma_last_dot(name.drop_last(), n);
    } else {
        assert(name.take(n) =~= name);
    }
}

/// The file of the asset `name` has `name` as its logical name: listing a
/// directory names each file as asking for it by name does.
pub proof fn lemma_asset_file_name(kind: AssetKind, name: Seq<char>)
    ensures
        logical_name(name + asset_ext(kind)) == name,
{
    reveal_strlit(".css");
    reveal_strlit(".js");
    let file_name = name + asset_ext(kind);
    let n = name.len() as int;
    lemma_last_dot(file_name, n + 1);
    assert(file_name.take(n + 1).last() == '.');
    assert(file_name.take(n) =~= name);
}

/// Derives the logical name of the file `file_name`.
pub fn name_of(file_name: &str) -> (name: String)
    ensures
        name@ == logical_name(file_name@),
{
    let chars = to_chars(file_name);
    let mut n: usize = chars.len();
    while n > 0 && chars[n - 1] != '.'
        invariant
            n <= chars.len(),
            forall|k: int| n <= k < chars.len() ==> chars@[k] != '.',
        decreases n,
    {
        n -= 1;
    }
    proof {
        lemma_last_dot(chars@, n as int);
        if n > 0 {
            assert(chars@.take(n as int).last() == '.');
        }
    }
    if n > 0 {
        let stem = file_name.substring_char(0, n - 1);
        String::from_str(stem)
    } else {
        String::from_str(file_name)
    }
}

/// Gathers the assets that `files` amount to.
pub fn collect_assets(files: &Vec<AssetFile>) -> (assets: Vec<(String, String)>)
    ensures
        pairs_model(assets@) == assets_of(files_model(files@)),
{
    let mut assets: Vec<(String, String)> = Vec::new();
    let mut i: usize = 0;
    while i < files.len()
        invariant
            i <= files.len(),
            pairs_model(assets@) == assets_of(files_model(files@).take(i as int)),
        decreases files.len() - i,
    {
        let ghost before = pairs_model(assets@);
        let file = &files[i];
        match &file.content {
            Some(text) => {
                assets.push((name_of(file.file_name.as_str()), text.clone()));
            },
            None => {},
        }
        proof {
            let model = files_model(files@);
            assert(model.take(i + 1).drop_last() =~= model.take(i as int));
            assert(model.take(i + 1).last() == files[i as int]@);
            assert(pairs_model(assets@) =~= before + asset_of(files[i as int]@));
        }
        i += 1;
    }
    proof {
        assert(files_model(files@).take(i as int) =~= files_model(files@));
    }
    assets
}

/// A name is a key of the mapping exactly if it is the name of one of the pairs.
pub proof fn lemma_mapping_keys(pairs: Seq<(Seq<char>, Seq<char>)>, name: Seq<char>)
    ensures
        mapping_of(pairs).dom().contains(name) <==> exists|i: int|
            0 <= i < pairs.len() && #[trigger] pairs[i].0 == name,
    decreases pairs.len(),
{
    if pairs.len() > 0 {
        let front = pairs.drop_last();
        lemma_mapping_keys(front, name);
        if pairs.last().0 == name {
            assert(pairs[pairs.len() - 1].0 == name);
        } else if mapping_of(pairs).dom().contains(name) {
            let i = choose|i: int| 0 <= i < front.len() && #[trigger] front[i].0 == name;
            assert(pairs[i].0 == name);
        } else if exists|i: int| 0 <= i < pairs.len() && #[trigger] pairs[i].0 == name {
            let i = choose|i: int| 0 <= i < pairs.len() && #[trigger] pairs[i].0 == name;
            assert(front[i].0 == name);
        }
    }
}

/// The mapping gives a name the text of the last pair of that name.
pub proof fn lemma_last_pair_counts(pairs: Seq<(Seq<char>, Seq<char>)>, i: int)
    requires
        0 <= i < pairs.len(),
        forall|j: int| i < j < pairs.len() ==> pairs[j].0 != pairs[i].0,
    ensures
        mapping_of(pairs).dom().contains(pairs[i].0),
        mapping_of(pairs)[pairs[i].0] == pairs[i].1,
    decreases pairs.len(),
{
    if i < pairs.len() - 1 {
        let front = pairs.drop_last();
        assert(front[i] == pairs[i]);
        assert forall|j: int| i < j < front.len() implies front[j].0 != front[i].0 by {
            assert(front[j] == pairs[j]);
        }
        lemma_last_pair_counts(front, i);
    }
}

/// Giving one of several pairs with distinct names another text changes the
/// mapping at that name alone.
pub proof fn lemma_mapping_update(pairs: Seq<(Seq<char>, Seq<char>)>, j: int, text: Seq<char>)
    requires
        distinct_names(pairs),
        0 <= j < pairs.len(),
    ensures
        mapping_of(pairs.update(j, (pairs[j].0, text))) == mapping_of(pairs).insert(
            pairs[j].0,
            text,
        ),
        distinct_names(pairs.update(j, (pairs[j].0, text))),
    decreases pairs.len(),
{
    let changed = pairs.update(j, (pairs[j].0, text));
    let front = pairs.drop_last();
    if j == pairs.len() - 1 {
        assert(changed.drop_last() =~= front);
        assert(mapping_of(changed) =~= mapping_of(pairs).insert(pairs[j].0, text));
    } else {
        assert(distinct_names(front)) by {
            assert forall|a: int, b: int| 0 <= a < b < front.len() implies front[a].0
                != front[b].0 by {
                assert(front[a] == pairs[a] && front[b] == pairs[b]);
            }
        }
        lemma_mapping_update(front, j, text);
        assert(changed.drop_last() =~= front.update(j, (front[j].0, text)));
        assert(changed.last() == pairs.last());
        assert(pairs.last().0 != pairs[j].0);
        assert(mapping_of(changed) =~= mapping_of(pairs).insert(pairs[j].0, text));
    }
}

/// A mapping that holds pairs with distinct names and nothing else is the
/// mapping that the pairs amount to.
pub proof fn lemma_held_mapping(mapping: Map<Seq<char>, Seq<char>>, pairs: Seq<(Seq<char>, Seq<char>)>)
    requires
        distinct_names(pairs),
        holds_pairs(mapping, pairs),
    ensures
        mapping == mapping_of(pairs),
{
    assert forall|name: Seq<char>|
        mapping.dom().contains(name) == mapping_of(pairs).dom().contains(name) by {
        lemma_mapping_keys(pairs, name);
        if mapping.dom().contains(name) {
            let i = choose|i: int| 0 <= i < pairs.len() && #[trigger] pairs[i].0 == name;
        } else if mapping_of(pairs).dom().contains(name) {
            let i = choose|i: int| 0 <= i < pairs.len() && #[trigger] pairs[i].0 == name;
            assert(mapping.dom().contains(pairs[i].0));
        }
    }
    assert forall|name: Seq<char>| mapping.dom().contains(name) implies mapping[name]
        == mapping_of(pairs)[name] by {
        let i = choose|i: int| 0 <= i < pairs.len() && #[trigger] pairs[i].0 == name;
        lemma_last_pair_counts(pairs, i);
        assert(mapping[pairs[i].0] == pairs[i].1);
    }
    assert(mapping =~= mapping_of(pairs));
}

/// Tells whether two names are the same text.
fn same_name(a: &String, b: &String) -> (same: bool)
    ensures
        same == (a@ == b@),
{
    *a == *b
}

/// Makes the names of `pairs` unique: of pairs that share a name the last
/// one's text stays, at the place of the first.
pub fn merge_names(pairs: &Vec<(String, String)>) -> (merged: Vec<(String, String)>)
    ensures
        distinct_names(pairs_model(merged@)),
        mapping_of(pairs_model(merged@)) == mapping_of(pairs_model(pairs@)),
{
    let mut merged: Vec<(String, String)> = Vec::new();
    let mut i: usize = 0;
    while i < pairs.len()
        invariant
            i <= pairs.len(),
            distinct_names(pairs_model(merged@)),
            mapping_of(pairs_model(merged@)) == mapping_of(pairs_model(pairs@).take(i as int)),
        decreases pairs.len() - i,
    {
        let ghost before = pairs_model(merged@);
        let ghost name = pairs[i as int].0@;
        let ghost text = pairs[i as int].1@;
        let pair = &pairs[i];
        let mut j: usize = 0;
        while j < merged.len() && !same_name(&merged[j].0, &pair.0)
            invariant
                j <= merged.len(),
                forall|k: int| 0 <= k < j ==> merged@[k].0@ != pair.0@,
            decreases merged.len() - j,
        {
            j += 1;
        }
        if j < merged.len() {
            merged.set(j, (pair.0.clone(), pair.1.clone()));
            proof {
                assert(pairs_model(merged@) =~= before.update(j as int, (before[j as int].0, text)));
                lemma_mapping_update(before, j as int, text);
            }
        } else {
            merged.push((pair.0.clone(), pair.1.clone()));
            proof {
                assert(pairs_model(merged@) =~= before.push((name, text)));
                assert(pairs_model(merged@).drop_last() =~= before);
                assert forall|a: int, b: int|
                    0 <= a < b < pairs_model(merged@).len() implies pairs_model(merged@)[a].0
                    != pairs_model(merged@)[b].0 by {
                    assert(pairs_model(merged@)[a] == before[a]);
                    if b < before.len() {
                        assert(pairs_model(merged@)[b] == before[b]);
                    } else {
                        assert(pairs_model(merged@)[b].0 == name);
                    }
                }
            }
        }
        proof {
            let model = pairs_model(pairs@);
            assert(model.take(i + 1).drop_last() =~= model.take(i as int));
            assert(model.take(i + 1).last() == (name, text));
        }
        i += 1;
    }
    proof {
        assert(pairs_model(pairs@).take(i as int) =~= pairs_model(pairs@));
    }
    merged
}

/// Every file that could be read is among the assets, under its logical name
/// and with its text.
pub proof fn lemma_file_among_assets(files: Seq<AssetFileModel>, i: int)
    requires
        0 <= i < files.len(),
        files[i].content is Some,
    ensures
        assets_of(files).contains((logical_name(files[i].file_name), files[i].content->0)),
    decreases files.len(),
{
    let front = assets_of(files.drop_last());
    let back = asset_of(files.last());
    let wanted = (logical_name(files[i].file_name), files[i].content->0);
    if i == files.len() - 1 {
        assert(back[0] == wanted);
        assert((front + back)[front.len() as int] == back[0]);
    } else {
        lemma_file_among_assets(files.drop_last(), i);
        let k = choose|k: int| 0 <= k < front.len() && front[k] == wanted;
        assert((front + back)[k] == front[k]);
    }
}

/// Every asset comes from a file that has its name as logical name and its
/// text as content: a file that could not be read contributes nothing.
pub proof fn lemma_asset_from_file(files: Seq<AssetFileModel>, k: int)
    requires
        0 <= k < assets_of(files).len(),
    ensures
        exists|i: int|
            0 <= i < files.len() && logical_name(files[i].file_name) == assets_of(files)[k].0
                && files[i].content == Some(assets_of(files)[k].1),
    decreases files.len(),
{
    let front = assets_of(files.drop_last());
    if k < front.len() {
        lemma_asset_from_file(files.drop_last(), k);
        let i = choose|i: int|
            0 <= i < files.drop_last().len() && logical_name(files.drop_last()[i].file_name)
                == front[k].0 && files.drop_last()[i].content == Some(front[k].1);
        assert(files[i] == files.drop_last()[i]);
    } else {
        let i = files.len() - 1;
        assert(files[i] == files.last());
    }
}

/// A name is a key of the mapping of a directory exactly if it is the logical
/// name of a file that could be read: files that could not be read are left
/// out, and nothing else is.
pub proof fn lemma_mapping_names(files: Seq<AssetFileModel>, name: Seq<char>)
    ensures
        assets_mapping(files).dom().contains(name) <==> exists|i: int|
            0 <= i < files.len() && #[trigger] logical_name(files[i].file_name) == name
                && files[i].content is Some,
{
    let assets = assets_of(files);
    lemma_mapping_keys(assets, name);
    if assets_mapping(files).dom().contains(name) {
        let k = choose|k: int| 0 <= k < assets.len() && #[trigger] assets[k].0 == name;
        lemma_asset_from_file(files, k);
        let i = choose|i: int|
            0 <= i < files.len() && logical_name(files[i].file_name) == assets[k].0
                && files[i].content == Some(assets[k].1);
        assert(logical_name(files[i].file_name) == name && files[i].content is Some);
    }
    if exists|i: int|
        0 <= i < files.len() && #[trigger] logical_name(files[i].file_name) == name
            && files[i].content is Some {
        let i = choose|i: int|
            0 <= i < files.len() && #[trigger] logical_name(files[i].file_name) == name
                && files[i].content is Some;
        lemma_file_among_assets(files, i);
        let wanted = (name, files[i].content->0);
        let k = choose|k: int| 0 <= k < assets.len() && assets[k] == wanted;
        assert(assets[k].0 == name);
    }
}

/// The mapping of a directory gives a logical name the text of the last file
/// of that name that could be read; where one such file has the name, its text.
pub proof fn lemma_last_file_counts(files: Seq<AssetFileModel>, i: int)
    requires
        0 <= i < files.len(),
        files[i].content is Some,
        forall|j: int|
            i < j < files.len() && files[j].content is Some ==> logical_name(files[j].file_name)
                != logical_name(files[i].file_name),
    ensures
        assets_mapping(files).dom().contains(logical_name(files[i].file_name)),
        assets_mapping(files)[logical_name(files[i].file_name)] == files[i].content->0,
    decreases files.len(),
{
    let front = files.drop_last();
    let back = asset_of(files.last());
    let name = logical_name(files[i].file_name);
    if i == files.len() - 1 {
        assert((assets_of(front) + back).drop_last() =~= assets_of(front));
        assert((assets_of(front) + back).last() == (name, files[i].content->0));
    } else {
        assert(front[i] == files[i]);
        assert forall|j: int| i < j < front.len() && front[j].content is Some implies logical_name(
            front[j].file_name,
        ) != logical_name(front[i].file_name) by {
            assert(front[j] == files[j]);
        }
        lemma_last_file_counts(front, i);
        match files.last().content {
            Some(text) => {
                assert((assets_of(front) + back).drop_last() =~= assets_of(front));
                assert((assets_of(front) + back).last() == (
                    logical_name(files.last().file_name),
                    text,
                ));
                assert(files[files.len() - 1] == files.last());
            },
            None => {
                assert(assets_of(front) + back =~= assets_of(front));
            },
        }
    }
}

/// Listing a directory agrees with asking for one asset by name: where the
/// file of the asset `name` is among the files and could be read, and no later
/// file that could be read has the logical name `name`, the mapping gives
/// `name` the text of that file.
pub proof fn lemma_listing_agrees(
    kind: AssetKind,
    name: Seq<char>,
    files: Seq<AssetFileModel>,
    i: int,
)
    requires
        0 <= i < files.len(),
        files[i].file_name == name + asset_ext(kind),
        files[i].content is Some,
        forall|j: int|
            i < j < files.len() && files[j].content is Some ==> logical_name(files[j].file_name)
                != name,
    ensures
        assets_mapping(files).dom().contains(name),
        assets_mapping(files)[name] == files[i].content->0,
{
    lemma_asset_file_name(kind, name);
    lemma_last_file_counts(files, i);
}

/// What the outcome of listing a directory stands for.
pub open spec fn listing_model(listing: Result<Vec<AssetFile>, String>) -> Result<
    Seq<AssetFileModel>,
    Seq<char>,
> {
    match listing {
        Ok(files) => Ok(files_model(files@)),
        Err(cause) => Err(cause@),
    }
}

/// What the host function that hands out all assets of a kind comes to, given
/// the outcome of listing the directory: a runtime error that carries the
/// cause where the directory could not be listed; otherwise, where the engine
/// makes the table, a table that holds the mapping of the files and nothing else.
pub open spec fn listed(
    listing: Result<Seq<AssetFileModel>, Seq<char>>,
    table: Result<mlua::Value, mlua::Error>,
) -> bool {
    match listing {
        Err(cause) => table matches Err(error) && error_words(error) == runtime_prefix() + cause,
        Ok(files) => table matches Ok(value) ==> table_texts(value) == assets_mapping(files),
    }
}

/// Builds the script table of the assets that `files` amount to.
fn assets_table(lua: &mlua::Lua, files: &Vec<AssetFile>) -> (table: Result<
    mlua::Value,
    mlua::Error,
>)
    ensures
        table matches Ok(value) ==> table_texts(value) == assets_mapping(files_model(files@)),
{
    let assets = collect_assets(files);
    let merged = merge_names(&assets);
    let table = mapping_into_lua(lua, &merged);
    proof {
        if table is Ok {
            lemma_held_mapping(table_texts(table->Ok_0), pairs_model(merged@));
        }
    }
    table
}

/// The host function behind `getStyles`: a script table that maps the logical
/// name of every readable style sheet in the directory to its text.
///
/// `listing` is the outcome of listing the directory: its files, or the
/// reason it could not be listed, which is raised in the script as a runtime
/// error. Files that could not be read are left out in silence. Where files
/// share a logical name, the last one counts.
pub fn get_styles(lua: &mlua::Lua, listing: Result<Vec<AssetFile>, String>) -> (table: Result<
    mlua::Value,
    mlua::Error,
>)
    ensures
        listed(listing_model(listing), table),
{
    match listing {
        Err(cause) => Err(runtime_error(cause)),
        Ok(files) => assets_table(lua, &files),
    }
}

/// The host function behind `getScripts`: a script table that maps the logical
/// name of every readable script in the directory to its text.
///
/// `listing` is the outcome of listing the directory: its files, or the
/// reason it could not be listed, which is raised in the script as a runtime
/// error. Files that could not be read are left out in silence. Where files
/// share a logical name, the last one counts.
pub fn get_scripts(lua: &mlua::Lua, listing: Result<Vec<AssetFile>, String>) -> (table: Result<
    mlua::Value,
    mlua::Error,
>)
    ensures
        listed(listing_model(listing), table),
{
    match listing {
        Err(cause) => Err(runtime_error(cause)),
        Ok(files) => assets_table(lua, &files),
    }
}

} // verus!
