//! Which archive entries the `cat` subcommand shows, and the lines it shows them with.
use vstd::prelude::*;

verus! {

/// The entries to show.
pub enum Filter {
    /// Every file.
    All,
    /// Files with exactly this name.
    Name(String),
    /// Files with exactly this extension.
    Extension(String),
}

/// Why the options do not make a filter.
#[derive(Clone, Copy, Debug, PartialEq, Eq, Structural)]
pub enum FilterError {
    /// A name and an extension were both given.
    NameAndExtension,
}

/// The filter the options select: a name, else an extension, else every file when `all`
/// holds, else the Rust sources. A name and an extension together are refused.
pub fn select_filter(name: Option<&str>, extension: Option<&str>, all: bool) -> (r: Result<
    Filter,
    FilterError,
>)
    ensures
        match (name, extension) {
            (Some(_), Some(_)) => r == Err::<Filter, _>(FilterError::NameAndExtension),
            (Some(n), None) => (r matches Ok(Filter::Name(s)) && s@ == n@),
            (None, Some(e)) => (r matches Ok(Filter::Extension(s)) && s@ == e@),
            (None, None) => if all {
                r matches Ok(Filter::All)
            } else {
                (r matches Ok(Filter::Extension(s)) && s@ == seq!['r', 's'])
            },
        },
{
    match (name, extension) {
        (Some(_), Some(_)) => Err(FilterError::NameAndExtension),
        (Some(n), None) => Ok(Filter::Name(n.to_owned())),
        (None, Some(e)) => Ok(Filter::Extension(e.to_owned())),
        (None, None) => {
            if all {
                Ok(Filter::All)
            } else {
                proof {
                    reveal_strlit("rs");
                }
                let rs = String::from_str("rs");
                proof {
                    assert(rs@ =~= seq!['r', 's']);
                }
                Ok(Filter::Extension(rs))
            }
        },
    }
}

impl Filter {
    /// Whether a file entry with this file name and extension is shown. An entry with no
    /// file name, or no extension, passes only the filters that do not ask for one.
    pub fn accepts(&self, file_name: Option<&str>, extension: Option<&str>) -> (r: bool)
        ensures
            r == match self {
                Filter::All => true,
                Filter::Name(n) => (file_name matches Some(f) && f@ == n@),
                Filter::Extension(x) => (extension matches Some(e) && e@ == x@),
            },
    {
        match self {
            Filter::All => true,
            Filter::Name(n) => match file_name {
                Some(f) => f.to_owned() == *n,
                None => false,
            },
            Filter::Extension(x) => match extension {
                Some(e) => e.to_owned() == *x,
                None => false,
            },
        }
    }
}

/// Whether `filter` shows a file with this name and extension.
pub open spec fn accepted(filter: Filter, file_name: Option<String>, extension: Option<String>) -> bool {
    match filter {
        Filter::All => true,
        Filter::Name(n) => (file_name matches Some(f) && f@ == n@),
        Filter::Extension(x) => (extension matches Some(e) && e@ == x@),
    }
}

/// One entry of an archive, as the `cat` listing sees it.
pub struct CatEntry {
    /// The entry's path, as text.
    pub path: String,
    /// The last component of the path, if it has one.
    pub file_name: Option<String>,
    /// The extension of that component, if it has one.
    pub extension: Option<String>,
    /// Whether the entry is a directory.
    pub is_dir: bool,
    /// The entry's content, one string per line.
    pub lines: Vec<String>,
}

/// One line of the `cat` listing.
pub enum CatLine {
    /// The path of a shown file.
    Path(String),
    /// A line of its content.
    Content(String),
    /// The blank line after a file.
    Blank,
    /// No file was shown.
    NothingFound,
}

/// Whether the listing shows this entry: a file that the filter accepts.
pub open spec fn shown(e: CatEntry, filter: Filter) -> bool {
    !e.is_dir && accepted(filter, e.file_name, e.extension)
}

/// The lines for one shown file: its path, its content lines, then a blank line.
pub open spec fn file_block(e: CatEntry) -> Seq<CatLine> {
    seq![CatLine::Path(e.path)] + e.lines@.map_values(|l: String| CatLine::Content(l)) + seq![
        CatLine::Blank,
    ]
}

/// The blocks of the shown entries, in order.
pub open spec fn blocks(entries: Seq<CatEntry>, filter: Filter) -> Seq<CatLine>
    decreases entries.len(),
{
    if entries.len() == 0 {
        Seq::empty()
    } else {
        let rest = blocks(entries.drop_last(), filter);
        if shown(entries.last(), filter) {
            rest + file_block(entries.last())
        } else {
            rest
        }
    }
}

/// The `cat` listing: the block of every shown entry, or a single notice when none is shown.
pub open spec fn cat_lines(entries: Seq<CatEntry>, filter: Filter) -> Seq<CatLine> {
    if blocks(entries, filter).len() == 0 {
        seq![CatLine::NothingFound]
    } else {
        blocks(entries, filter)
    }
}

/// The `cat` listing: the block of every shown entry, or a single notice when none is shown.
pub fn cat_listing(entries: &Vec<CatEntry>, filter: &Filter) -> (r: Vec<CatLine>)
    ensures
        r@ == cat_lines(entries@, *filter),
{
    let mut out: Vec<CatLine> = Vec::new();
    let mut k: usize = 0;
    while k < entries.len()
        invariant
            0 <= k <= entries@.len(),
            out@ == blocks(entries@.subrange(0, k as int), *filter),
        decreases entries@.len() - k,
    {
        let e = &entries[k];
        let ghost done = entries@.subrange(0, k as int);
        proof {
            assert(entries@.subrange(0, k + 1).drop_last() =~= done);
        }
        let file_name = match &e.file_name {
            Some(f) => Some(f.as_str()),
            None => None,
        };
        let extension = match &e.extension {
            Some(x) => Some(x.as_str()),
            None => None,
        };
        if !e.is_dir && filter.accepts(file_name, extension) {
            let ghost before = out@;
            out.push(CatLine::Path(e.path.clone()));
            let mut j: usize = 0;
            while j < e.lines.len()
                invariant
                    0 <= j <= e.lines@.len(),
                    out@ == before + seq![CatLine::Path(e.path)] + e.lines@.subrange(
                        0,
                        j as int,
                    ).map_values(|l: String| CatLine::Content(l)),
                decreases e.lines@.len() - j,
            {
                out.push(CatLine::Content(e.lines[j].clone()));
                proof {
                    assert(e.lines@.subrange(0, j + 1).map_values(|l: String| CatLine::Content(l))
                        =~= e.lines@.subrange(0, j as int).map_values(
                        |l: String| CatLine::Content(l),
                    ).push(CatLine::Content(e.lines@[j as int])));
                    assert(out@ =~= before + seq![CatLine::Path(e.path)] + e.lines@.subrange(
                        0,
                        j + 1,
                    ).map_values(|l: String| CatLine::Content(l)));
                }
                j += 1;
            }
            out.push(CatLine::Blank);
            proof {
                assert(e.lines@.subrange(0, j as int) =~= e.lines@);
                assert(out@ =~= before + file_block(*e));
            }
        }
        k += 1;
    }
    proof {
        assert(entries@.subrange(0, k as int) =~= entries@);
    }
    if out.len() == 0 {
        out.push(CatLine::NothingFound);
        proof {
            assert(out@ =~= seq![CatLine::NothingFound]);
        }
    }
    out
}

} // verus!
