//! Where the source of a module comes from.
//!
//! A module is looked up in a table of embedded sources first, then in the
//! configured directories. A name without an extension is also tried with
//! the extensions `js` and `mjs`. Names are compared as paths, so that two
//! ways of writing one path name one module.
use vstd::prelude::*;
use crate::errors::{ExecutionError, ExecutionErrorModel};

verus! {

/// Whether the file name of a path has an extension, as
/// `std::path::Path::extension` tells for the platform that the crate is
/// built for.
pub uninterp spec fn path_extension_present(path: Seq<char>) -> bool;

/// The path with its extension set to the given one, as
/// `std::path::PathBuf::set_extension` leaves it on the platform that the
/// crate is built for.
pub uninterp spec fn path_extension_set(path: Seq<char>, extension: Seq<char>) -> Seq<char>;

/// The path of a module below a directory, as `std::path::Path::join`
/// gives it on the platform that the crate is built for.
pub uninterp spec fn path_joined(dir: Seq<char>, module: Seq<char>) -> Seq<char>;

/// Whether two texts name the same path, as `std::path::Path` compares
/// paths on the platform that the crate is built for: component by
/// component, so that a doubled separator makes no difference.
pub uninterp spec fn same_path(a: Seq<char>, b: Seq<char>) -> bool;

/// Whether a text holds no path separator of any platform.
pub open spec fn no_separator(text: Seq<char>) -> bool {
    forall|i: int| 0 <= i < text.len() ==> text[i] != '/' && text[i] != '\\'
}

/// `std::path::Path::extension`: whether the file name of the path has an
/// extension. The path is read, nothing else; the answer is named, not
/// spelled out, since what counts as an extension is the platform's matter.
#[verifier::external_body]
fn path_has_extension(path: &str) -> (has: bool)
    ensures
        has == path_extension_present(path@),
{
    std::path::Path::new(path).extension().is_some()
}

/// `std::path::PathBuf::set_extension`: the path with the given extension.
/// The call panics on an extension that holds a path separator, so such an
/// extension is not admitted. The result is named, not spelled out.
#[verifier::external_body]
fn path_with_extension(path: &str, extension: &str) -> (with: String)
    requires
        no_separator(extension@),
    ensures
        with@ == path_extension_set(path@, extension@),
{
    let mut buf = std::path::PathBuf::from(path);
    buf.set_extension(extension);
    buf.to_string_lossy().into_owned()
}

/// `PartialEq::eq` of `std::path::Path`: whether the two texts name the
/// same path. The answer is named, not spelled out; a text names the same
/// path as itself.
#[verifier::external_body]
fn path_eq(a: &str, b: &str) -> (same: bool)
    ensures
        same == same_path(a@, b@),
        a@ == b@ ==> same,
{
    std::path::Path::new(a) == std::path::Path::new(b)
}

/// `std::path::Path::join`: the path of `module` below the directory `dir`.
/// The result is named, not spelled out.
#[verifier::external_body]
fn path_join(dir: &str, module: &str) -> (joined: String)
    ensures
        joined@ == path_joined(dir@, module@),
{
    std::path::Path::new(dir).join(module).to_string_lossy().into_owned()
}

/// The names under which a module is tried: the name itself, and, where it
/// has no extension, the name with `js` and with `mjs`.
pub open spec fn candidate_names(
    base: Seq<char>,
    has_extension: bool,
    with_js: Seq<char>,
    with_mjs: Seq<char>,
) -> Seq<Seq<char>> {
    if has_extension {
        seq![base]
    } else {
        seq![base, with_js, with_mjs]
    }
}

/// The texts of a sequence of strings.
pub open spec fn texts(names: Seq<String>) -> Seq<Seq<char>> {
    Seq::new(names.len(), |i: int| names[i]@)
}

/// The names under which a module is tried, in the order in which they are
/// tried.
pub fn candidates(base: String, has_extension: bool, with_js: String, with_mjs: String) -> (names:
    Vec<String>)
    ensures
        texts(names@) == candidate_names(base@, has_extension, with_js@, with_mjs@),
{
    let mut names: Vec<String> = Vec::new();
    names.push(base);
    if !has_extension {
        names.push(with_js);
        names.push(with_mjs);
    }
    assert(texts(names@) =~= candidate_names(base@, has_extension, with_js@, with_mjs@));
    names
}

/// One embedded module: its name and its source.
#[derive(PartialEq, Eq, Debug)]
pub struct EmbeddedModule {
    pub name: String,
    pub code: String,
}

/// The models of the embedded modules: name and source of each.
pub open spec fn embedded_view(modules: Seq<EmbeddedModule>) -> Seq<(Seq<char>, Seq<char>)> {
    Seq::new(modules.len(), |i: int| (modules[i].name@, modules[i].code@))
}

/// The position of the first module at or after `start` whose name names
/// the same path as `name`, or the number of modules where there is none.
pub open spec fn embedded_index(
    modules: Seq<(Seq<char>, Seq<char>)>,
    name: Seq<char>,
    start: int,
) -> int
    decreases modules.len() - start,
{
    if start < 0 || start >= modules.len() {
        modules.len() as int
    } else if same_path(modules[start].0, name) {
        start
    } else {
        embedded_index(modules, name, start + 1)
    }
}

/// The source embedded under a name, if there is one.
pub open spec fn embedded_code(modules: Seq<(Seq<char>, Seq<char>)>, name: Seq<char>) -> Option<
    Seq<char>,
> {
    let at = embedded_index(modules, name, 0);
    if 0 <= at < modules.len() {
        Some(modules[at].1)
    } else {
        None
    }
}

/// The table after `name` has been given the source `code`: a module that
/// is there already keeps its name as it was written and gets the new
/// source, a new module comes last.
pub open spec fn embedded_put(
    modules: Seq<(Seq<char>, Seq<char>)>,
    name: Seq<char>,
    code: Seq<char>,
) -> Seq<(Seq<char>, Seq<char>)> {
    let at = embedded_index(modules, name, 0);
    if 0 <= at < modules.len() {
        modules.update(at, (modules[at].0, code))
    } else {
        modules.push((name, code))
    }
}

/// The table after the modules of `more` from `start` on have been put
/// into it, one after the other.
pub open spec fn embedded_put_all(
    modules: Seq<(Seq<char>, Seq<char>)>,
    more: Seq<(Seq<char>, Seq<char>)>,
    start: int,
) -> Seq<(Seq<char>, Seq<char>)>
    decreases more.len() - start,
{
    if start < 0 || start >= more.len() {
        modules
    } else {
        embedded_put_all(embedded_put(modules, more[start].0, more[start].1), more, start + 1)
    }
}

/// The first of the names from `start` on under which a source is
/// embedded, with that source.
pub open spec fn first_embedded(
    modules: Seq<(Seq<char>, Seq<char>)>,
    names: Seq<Seq<char>>,
    start: int,
) -> Option<Seq<char>>
    decreases names.len() - start,
{
    if start < 0 || start >= names.len() {
        None
    } else {
        match embedded_code(modules, names[start]) {
            Some(code) => Some(code),
            None => first_embedded(modules, names, start + 1),
        }
    }
}

/// The names under which a module or a file is tried, in order: the name
/// itself, and, where it has no extension, the name with `js` and then
/// with `mjs`.
pub open spec fn names_tried(base: Seq<char>) -> Seq<Seq<char>> {
    candidate_names(
        base,
        path_extension_present(base),
        path_extension_set(base, "js"@),
        path_extension_set(base, "mjs"@),
    )
}

/// The files in which a module is looked for, in order: for each directory,
/// in the order of the directories, the names tried for the module's path
/// below that directory.
pub open spec fn files_tried(paths: Seq<Seq<char>>, module: Seq<char>) -> Seq<Seq<char>>
    decreases paths.len(),
{
    if paths.len() == 0 {
        Seq::empty()
    } else {
        files_tried(paths.drop_last(), module) + names_tried(path_joined(paths.last(), module))
    }
}

/// The position of the first file at or after `start` that could be read,
/// or the number of files where none could.
pub open spec fn first_present(contents: Seq<Option<String>>, start: int) -> int
    decreases contents.len() - start,
{
    if start < 0 || start >= contents.len() {
        contents.len() as int
    } else if contents[start].is_some() {
        start
    } else {
        first_present(contents, start + 1)
    }
}

/// Whether no path is named twice among the embedded modules: no module
/// names the same path as a module that comes after it.
pub open spec fn distinct_names(modules: Seq<(Seq<char>, Seq<char>)>) -> bool {
    forall|i: int, j: int|
        0 <= i < j < modules.len() ==> !same_path(
            (#[trigger] modules[i]).0,
            (#[trigger] modules[j]).0,
        )
}

/// The extensions of the fallbacks hold no path separator.
proof fn lemma_fallback_extensions()
    ensures
        no_separator("js"@),
        no_separator("mjs"@),
{
    reveal_strlit("js");
    reveal_strlit("mjs");
}

/// The names tried for a base, for a base with whatever the platform
/// answered.
fn tried(base: String) -> (names: Vec<String>)
    ensures
        texts(names@) == names_tried(base@),
{
    proof {
        lemma_fallback_extensions();
    }
    let has_extension = path_has_extension(base.as_str());
    let with_js = path_with_extension(base.as_str(), "js");
    let with_mjs = path_with_extension(base.as_str(), "mjs");
    candidates(base, has_extension, with_js, with_mjs)
}

/// Where the source of a module comes from.
#[derive(PartialEq, Eq, Debug)]
pub enum ModuleSource {
    /// The source is embedded; here it is.
    Embedded(String),
    /// The source is in the first of these files that can be read.
    Files(Vec<String>),
}

/// The mathematical model of a loader: the directories and the embedded
/// modules.
pub struct LoaderModel {
    pub paths: Seq<Seq<char>>,
    pub embedded: Seq<(Seq<char>, Seq<char>)>,
}

/// Finds the sources of modules.
pub struct ModuleLoader {
    paths: Vec<String>,
    embedded: Vec<EmbeddedModule>,
}

impl View for ModuleLoader {
    type V = LoaderModel;

    closed spec fn view(&self) -> LoaderModel {
        LoaderModel { paths: texts(self.paths@), embedded: embedded_view(self.embedded@) }
    }
}

impl ModuleLoader {
    /// No path is named twice among the embedded modules of a loader.
    #[verifier::type_invariant]
    spec fn names_are_distinct(self) -> bool {
        distinct_names(embedded_view(self.embedded@))
    }

    /// A loader with no directories and no embedded modules.
    pub fn new() -> (loader: Self)
        ensures
            loader@.paths.len() == 0,
            loader@.embedded.len() == 0,
            distinct_names(loader@.embedded),
    {
        ModuleLoader { paths: Vec::new(), embedded: Vec::new() }
    }

    /// The position of the first embedded module of the given name, or the
    /// number of embedded modules where there is none.
    fn position(&self, name: &String) -> (at: usize)
        ensures
            at == embedded_index(self@.embedded, name@, 0),
            at <= self@.embedded.len(),
    {
        let mut i: usize = 0;
        while i < self.embedded.len()
            invariant
                i <= self.embedded@.len(),
                embedded_index(self@.embedded, name@, 0) == embedded_index(
                    self@.embedded,
                    name@,
                    i as int,
                ),
            decreases self.embedded@.len() - i,
        {
            if path_eq(self.embedded[i].name.as_str(), name.as_str()) {
                return i;
            }
            i += 1;
        }
        i
    }

    /// Embeds one module. A module that names the same path and is
    /// embedded already gets the new source.
    fn embed(&mut self, module: EmbeddedModule)
        ensures
            final(self)@.paths == old(self)@.paths,
            final(self)@.embedded == embedded_put(old(self)@.embedded, module.name@, module.code@),
            distinct_names(final(self)@.embedded),
    {
        proof {
            use_type_invariant(&*self);
            lemma_put_keeps_names_distinct(self@.embedded, module.name@, module.code@);
        }
        let at = self.position(&module.name);
        let mut table: Vec<EmbeddedModule> = Vec::new();
        let mut i: usize = 0;
        assert(embedded_view(table@) =~= self@.embedded.take(0));
        while i < self.embedded.len()
            invariant
                i <= self.embedded@.len(),
                embedded_view(table@) == self@.embedded.take(i as int),
            decreases self.embedded@.len() - i,
        {
            let ghost before = embedded_view(table@);
            table.push(
                EmbeddedModule {
                    name: self.embedded[i].name.clone(),
                    code: self.embedded[i].code.clone(),
                },
            );
            assert(embedded_view(table@) =~= before.push(self@.embedded[i as int]));
            assert(self@.embedded.take(i + 1) =~= self@.embedded.take(i as int).push(
                self@.embedded[i as int],
            ));
            i += 1;
        }
        assert(self@.embedded.take(i as int) =~= self@.embedded);
        let ghost before = embedded_view(table@);
        if at < table.len() {
            let kept = table[at].name.clone();
            table.set(at, EmbeddedModule { name: kept, code: module.code });
            assert(embedded_view(table@) =~= before.update(
                at as int,
                (before[at as int].0, module.code@),
            ));
        } else {
            table.push(module);
            assert(embedded_view(table@) =~= before.push((module.name@, module.code@)));
        }
        self.embedded = table;
    }

    /// Embeds modules, in the order given.
    pub fn add_embedded(&mut self, embedded: Vec<EmbeddedModule>)
        ensures
            final(self)@.paths == old(self)@.paths,
            final(self)@.embedded == embedded_put_all(
                old(self)@.embedded,
                embedded_view(embedded@),
                0,
            ),
            distinct_names(final(self)@.embedded),
    {
        proof {
            use_type_invariant(&*self);
        }
        let ghost all = embedded_view(embedded@);
        let total = embedded.len();
        let mut rest = embedded;
        let mut done: usize = 0;
        while rest.len() > 0
            invariant
                done + rest@.len() == total,
                total == all.len(),
                self@.paths == old(self)@.paths,
                embedded_view(rest@) == all.subrange(done as int, total as int),
                distinct_names(self@.embedded),
                embedded_put_all(old(self)@.embedded, all, 0) == embedded_put_all(
                    self@.embedded,
                    all,
                    done as int,
                ),
            decreases rest@.len(),
        {
            let ghost before = embedded_view(rest@);
            let ghost old_rest = rest@;
            let module = rest.remove(0);
            proof {
                assert(rest@ == old_rest.remove(0));
                assert(before[0] == (module.name@, module.code@));
                assert(all[done as int] == before[0]);
                assert forall|k: int| 0 <= k < rest@.len() implies embedded_view(rest@)[k]
                    == all.subrange(done + 1, total as int)[k] by {
                    assert(rest@[k] == old_rest[k + 1]);
                    assert(before[k + 1] == (old_rest[k + 1].name@, old_rest[k + 1].code@));
                    assert(before[k + 1] == all[done + k + 1]);
                }
                assert(embedded_view(rest@) =~= all.subrange(done + 1, total as int));
            }
            self.embed(module);
            done += 1;
        }
    }

    /// Adds directories in which modules are looked for, after those that
    /// are there already.
    pub fn add_paths(&mut self, paths: Vec<String>)
        ensures
            final(self)@.embedded == old(self)@.embedded,
            final(self)@.paths == old(self)@.paths + texts(paths@),
            distinct_names(final(self)@.embedded),
    {
        proof {
            use_type_invariant(&*self);
        }
        let mut all: Vec<String> = Vec::new();
        let mut i: usize = 0;
        assert(texts(all@) =~= self@.paths.take(0));
        while i < self.paths.len()
            invariant
                i <= self.paths@.len(),
                texts(all@) == self@.paths.take(i as int),
            decreases self.paths@.len() - i,
        {
            let ghost before = texts(all@);
            all.push(self.paths[i].clone());
            assert(texts(all@) =~= before.push(self.paths@[i as int]@));
            assert(self@.paths.take(i + 1) =~= self@.paths.take(i as int).push(
                self.paths@[i as int]@,
            ));
            i += 1;
        }
        assert(self@.paths.take(i as int) =~= self@.paths);
        let mut more = paths;
        let ghost moved = more@;
        let ghost before = texts(all@);
        all.append(&mut more);
        assert(texts(all@) =~= before + texts(moved));
        self.paths = all;
    }

    /// The source embedded under one of the given names: that of the first
    /// such name.
    pub fn lookup_embedded(&self, names: &Vec<String>) -> (code: Option<String>)
        ensures
            match code {
                Some(c) => first_embedded(self@.embedded, texts(names@), 0) == Some(c@),
                None => first_embedded(self@.embedded, texts(names@), 0).is_none(),
            },
    {
        let mut n: usize = 0;
        while n < names.len()
            invariant
                n <= names@.len(),
                first_embedded(self@.embedded, texts(names@), 0) == first_embedded(
                    self@.embedded,
                    texts(names@),
                    n as int,
                ),
            decreases names@.len() - n,
        {
            let mut i: usize = 0;
            while i < self.embedded.len()
                invariant
                    i <= self.embedded@.len(),
                    n < names@.len(),
                    first_embedded(self@.embedded, texts(names@), 0) == first_embedded(
                        self@.embedded,
                        texts(names@),
                        n as int,
                    ),
                    embedded_index(self@.embedded, names@[n as int]@, 0) == embedded_index(
                        self@.embedded,
                        names@[n as int]@,
                        i as int,
                    ),
                decreases self.embedded@.len() - i,
            {
                if path_eq(self.embedded[i].name.as_str(), names[n].as_str()) {
                    assert(texts(names@)[n as int] == names@[n as int]@);
                    assert(self@.embedded[i as int].1 == self.embedded@[i as int].code@);
                    return Some(self.embedded[i].code.clone());
                }
                i += 1;
            }
            assert(texts(names@)[n as int] == names@[n as int]@);
            n += 1;
        }
        None
    }

    /// The names under which a module is looked for among the embedded
    /// modules: the name itself and, where it has no extension, the name
    /// with `js` and with `mjs`.
    pub fn embedded_names(module: &str) -> (names: Vec<String>)
        ensures
            texts(names@) == names_tried(module@),
    {
        tried(String::from_str(module))
    }

    /// The files in which a module is looked for: below each directory, in
    /// the order of the directories, the module's name and, where it has no
    /// extension, the name with `js` and with `mjs`.
    pub fn file_names(&self, module: &str) -> (files: Vec<String>)
        ensures
            texts(files@) == files_tried(self@.paths, module@),
    {
        let mut files: Vec<String> = Vec::new();
        let ghost paths = texts(self.paths@);
        let mut d: usize = 0;
        assert(texts(files@) =~= files_tried(paths.take(0), module@));
        while d < self.paths.len()
            invariant
                d <= self.paths@.len(),
                paths == texts(self.paths@),
                texts(files@) == files_tried(paths.take(d as int), module@),
            decreases self.paths@.len() - d,
        {
            let base = path_join(self.paths[d].as_str(), module);
            let mut names = tried(base);
            let ghost before = texts(files@);
            let ghost group = texts(names@);
            files.append(&mut names);
            proof {
                assert(texts(files@) =~= before + group);
                assert(paths.take(d + 1).drop_last() =~= paths.take(d as int));
                assert(paths.take(d + 1).last() == self.paths@[d as int]@);
            }
            d += 1;
        }
        assert(paths.take(d as int) =~= paths);
        files
    }

    /// Says where the source of a module comes from. Where modules are
    /// embedded, the names tried for the module are looked up among them,
    /// in order, and the first that is embedded gives the source. Where
    /// none is, the files to try are named, in order.
    pub fn load(&self, module: &str) -> (source: ModuleSource)
        ensures
            match source {
                ModuleSource::Embedded(code) => {
                    &&& self@.embedded.len() > 0
                    &&& first_embedded(self@.embedded, names_tried(module@), 0) == Some(code@)
                },
                ModuleSource::Files(files) => {
                    &&& self@.embedded.len() == 0 || first_embedded(
                        self@.embedded,
                        names_tried(module@),
                        0,
                    ).is_none()
                    &&& texts(files@) == files_tried(self@.paths, module@)
                },
            },
    {
        if self.embedded.len() > 0 {
            let names = ModuleLoader::embedded_names(module);
            match self.lookup_embedded(&names) {
                Some(code) => {
                    return ModuleSource::Embedded(code);
                },
                None => {},
            }
        }
        ModuleSource::Files(self.file_names(module))
    }

    /// The source of a module from the files that were tried. `contents`
    /// holds, for each file in the order in which the files were named,
    /// what the file held, or `None` where it could not be read. The first
    /// file that could be read gives the source; where none could, the
    /// module was not found.
    pub fn first_read(module: &str, contents: Vec<Option<String>>) -> (r: Result<
        String,
        ExecutionError,
    >)
        ensures
            match r {
                Ok(code) => {
                    &&& first_present(contents@, 0) < contents@.len()
                    &&& contents@[first_present(contents@, 0)] == Some(code)
                },
                Err(e) => {
                    &&& first_present(contents@, 0) == contents@.len()
                    &&& e@ == ExecutionErrorModel::ModuleNotFound(module@)
                },
            },
    {
        let mut rest = contents;
        let mut i: usize = 0;
        while i < rest.len()
            invariant
                i <= rest@.len(),
                rest@ == contents@,
                first_present(contents@, 0) == first_present(contents@, i as int),
            decreases rest@.len() - i,
        {
            if rest[i].is_some() {
                assert(first_present(contents@, i as int) == i);
                let found = rest.remove(i);
                assert(found == contents@[i as int]);
                return Ok(found.unwrap());
            }
            i += 1;
        }
        Err(ExecutionError::ModuleNotFound(String::from_str(module)))
    }

    /// The source of a module, once the files were tried: what the first
    /// readable file held, or the error that the module was not found.
    pub fn finish_load(module: &str, read: Option<String>) -> (r: Result<String, ExecutionError>)
        ensures
            match read {
                Some(code) => r == Ok::<String, ExecutionError>(code),
                None => r matches Err(e) && e@ == ExecutionErrorModel::ModuleNotFound(module@),
            },
    {
        match read {
            Some(code) => Ok(code),
            None => Err(ExecutionError::ModuleNotFound(String::from_str(module))),
        }
    }
}

/// The position found is at or after `start`, and at most the number of
/// modules.
pub proof fn lemma_embedded_index_bounds(
    modules: Seq<(Seq<char>, Seq<char>)>,
    name: Seq<char>,
    start: int,
)
    requires
        0 <= start <= modules.len(),
    ensures
        start <= embedded_index(modules, name, start) <= modules.len(),
        embedded_index(modules, name, start) < modules.len() ==> same_path(
            modules[embedded_index(modules, name, start)].0,
            name,
        ),
    decreases modules.len() - start,
{
    if start < modules.len() && !same_path(modules[start].0, name) {
        lemma_embedded_index_bounds(modules, name, start + 1);
    }
}

/// A source that is found under one of the names is the source of one of
/// the embedded modules.
pub proof fn lemma_first_embedded_is_embedded(
    modules: Seq<(Seq<char>, Seq<char>)>,
    names: Seq<Seq<char>>,
    start: int,
)
    requires
        0 <= start <= names.len(),
    ensures
        first_embedded(modules, names, start) matches Some(code) ==> exists|i: int|
            0 <= i < modules.len() && (#[trigger] modules[i]).1 == code,
    decreases names.len() - start,
{
    if start < names.len() {
        lemma_embedded_index_bounds(modules, names[start], 0);
        match embedded_code(modules, names[start]) {
            Some(code) => {
                let at = embedded_index(modules, names[start], 0);
                assert(modules[at].1 == code);
            },
            None => {
                lemma_first_embedded_is_embedded(modules, names, start + 1);
            },
        }
    }
}

/// Putting a module into a table in which no path is named twice leaves it
/// so.
pub proof fn lemma_put_keeps_names_distinct(
    modules: Seq<(Seq<char>, Seq<char>)>,
    name: Seq<char>,
    code: Seq<char>,
)
    requires
        distinct_names(modules),
    ensures
        distinct_names(embedded_put(modules, name, code)),
{
    lemma_embedded_index_bounds(modules, name, 0);
    let at = embedded_index(modules, name, 0);
    let after = embedded_put(modules, name, code);
    assert forall|i: int, j: int| 0 <= i < j < after.len() implies !same_path(
        (#[trigger] after[i]).0,
        (#[trigger] after[j]).0,
    ) by {
        if at < modules.len() {
            assert(after[i].0 == modules[i].0);
            assert(after[j].0 == modules[j].0);
        } else if j < modules.len() {
            assert(after[i] == modules[i]);
            assert(after[j] == modules[j]);
        } else {
            assert(after[i] == modules[i]);
            lemma_not_before(modules, name, 0, i);
        }
    }
}

/// A module that was embedded is found under its name, with the source it
/// was embedded with. For a module that is new to the table this rests on
/// the name naming the same path as itself.
pub proof fn lemma_embedded_module_is_found(
    modules: Seq<(Seq<char>, Seq<char>)>,
    name: Seq<char>,
    code: Seq<char>,
)
    ensures
        same_path(name, name) ==> embedded_code(embedded_put(modules, name, code), name) == Some(
            code,
        ),
{
    if same_path(name, name) {
        lemma_embedded_index_bounds(modules, name, 0);
        let after = embedded_put(modules, name, code);
        let at = embedded_index(modules, name, 0);
        assert(after[at].1 == code);
        assert(same_path(after[at].0, name));
        assert forall|k: int| 0 <= k < at implies !same_path((#[trigger] after[k]).0, name) by {
            lemma_not_before(modules, name, 0, k);
            assert(after[k] == modules[k]);
        }
        lemma_found_at(after, name, 0, at);
    }
}

/// No module before the position found names the same path.
proof fn lemma_not_before(modules: Seq<(Seq<char>, Seq<char>)>, name: Seq<char>, start: int, k: int)
    requires
        0 <= start <= k < embedded_index(modules, name, start),
        k < modules.len(),
    ensures
        !same_path(modules[k].0, name),
    decreases modules.len() - start,
{
    if start < modules.len() && !same_path(modules[start].0, name) && start < k {
        lemma_not_before(modules, name, start + 1, k);
    }
}

/// Where the module at `at` names the same path and none before it does,
/// the position found is `at`.
proof fn lemma_found_at(modules: Seq<(Seq<char>, Seq<char>)>, name: Seq<char>, start: int, at: int)
    requires
        0 <= start <= at < modules.len(),
        same_path(modules[at].0, name),
        forall|k: int| start <= k < at ==> !same_path((#[trigger] modules[k]).0, name),
    ensures
        embedded_index(modules, name, start) == at,
    decreases at - start,
{
    if start < at {
        assert(!same_path(modules[start].0, name));
        lemma_found_at(modules, name, start + 1, at);
    }
}

} // verus!
