//! The names under which a directory's files and directories are packed, and the steps
//! that recreate an archive's directories and files on disk.
use crate::file_tree::path_view;
use vstd::prelude::*;
use vstd::string::StringExecFns;

verus! {

/// The archive entry name for a path relative to the packed root: a file keeps its path, a
/// directory gets a trailing `/`, and the root itself gets no entry.
pub fn pack_entry_name(relative: &str, is_file: bool) -> (r: Option<String>)
    ensures
        is_file ==> (r matches Some(n) && n@ == relative@),
        !is_file && relative@.len() == 0 ==> r is None,
        !is_file && relative@.len() > 0 ==> (r matches Some(n) && n@ == relative@ + seq!['/']),
{
    if is_file {
        Some(relative.to_owned())
    } else if relative.is_empty() {
        None
    } else {
        proof {
            reveal_strlit("/");
            assert("/"@ =~= seq!['/']);
        }
        let mut n = relative.to_owned();
        n.append("/");
        Some(n)
    }
}

/// One entry of an archive, read out of it.
pub struct ArchiveEntry {
    /// The entry's path, one string per component.
    pub path: Vec<String>,
    /// Whether the entry is a directory.
    pub is_dir: bool,
    /// The permission bits stored with the entry, where the archive has them.
    pub unix_mode: Option<u32>,
    /// The entry's content; empty for a directory.
    pub data: Vec<u8>,
    /// Whether the content is stored uncompressed.
    pub stored: bool,
}

/// One filesystem operation, with paths relative to the destination directory.
pub enum UnpackStep {
    /// Create this directory and any missing parents.
    CreateDir(Vec<String>),
    /// Create or overwrite this file with these bytes.
    WriteFile(Vec<String>, Vec<u8>),
    /// Set the permission bits of this path.
    SetMode(Vec<String>, u32),
}

/// What a step does, over plain values.
pub enum StepView {
    CreateDir(Seq<Seq<char>>),
    WriteFile(Seq<Seq<char>>, Seq<u8>),
    SetMode(Seq<Seq<char>>, u32),
}

impl UnpackStep {
    pub open spec fn view(&self) -> StepView {
        match self {
            UnpackStep::CreateDir(p) => StepView::CreateDir(path_view(p@)),
            UnpackStep::WriteFile(p, d) => StepView::WriteFile(path_view(p@), d@),
            UnpackStep::SetMode(p, m) => StepView::SetMode(path_view(p@), *m),
        }
    }
}

/// What each step does.
pub open spec fn steps_view(steps: Seq<UnpackStep>) -> Seq<StepView> {
    steps.map_values(|s: UnpackStep| s.view())
}

/// The steps for one entry: a directory is created; a file gets its parent directory, when
/// it has one, and then its content; stored permission bits are then applied.
pub open spec fn entry_steps(e: ArchiveEntry) -> Seq<StepView> {
    let p = path_view(e.path@);
    let create = if e.is_dir {
        seq![StepView::CreateDir(p)]
    } else if p.len() > 1 {
        seq![StepView::CreateDir(p.drop_last()), StepView::WriteFile(p, e.data@)]
    } else {
        seq![StepView::WriteFile(p, e.data@)]
    };
    match e.unix_mode {
        Some(m) => create.push(StepView::SetMode(p, m)),
        None => create,
    }
}

/// The steps for all entries, in the archive's order.
pub open spec fn all_steps(entries: Seq<ArchiveEntry>) -> Seq<StepView>
    decreases entries.len(),
{
    if entries.len() == 0 {
        Seq::empty()
    } else {
        all_steps(entries.drop_last()) + entry_steps(entries.last())
    }
}

/// A copy of a path.
fn copy_path(p: &Vec<String>, n: usize) -> (r: Vec<String>)
    requires
        n <= p@.len(),
    ensures
        path_view(r@) == path_view(p@).subrange(0, n as int),
{
    let mut r: Vec<String> = Vec::new();
    let mut i: usize = 0;
    while i < n
        invariant
            0 <= i <= n <= p@.len(),
            path_view(r@) == path_view(p@).subrange(0, i as int),
        decreases n - i,
    {
        let ghost before = r@;
        r.push(p[i].clone());
        proof {
            assert(r@ == before.push(p@[i as int]));
            assert(path_view(r@) =~= path_view(before).push(p@[i as int]@));
            assert(path_view(p@).subrange(0, i + 1) =~= path_view(p@).subrange(0, i as int).push(
                p@[i as int]@,
            ));
        }
        i += 1;
    }
    r
}

/// The filesystem steps that recreate `entries` under a destination directory.
pub fn unpack_steps(entries: &Vec<ArchiveEntry>) -> (r: Vec<UnpackStep>)
    ensures
        steps_view(r@) == all_steps(entries@),
{
    let mut out: Vec<UnpackStep> = Vec::new();
    let mut k: usize = 0;
    while k < entries.len()
        invariant
            0 <= k <= entries@.len(),
            steps_view(out@) == all_steps(entries@.subrange(0, k as int)),
        decreases entries@.len() - k,
    {
        let e = &entries[k];
        let ghost before = steps_view(out@);
        let ghost p = path_view(e.path@);
        proof {
            assert(entries@.subrange(0, k + 1).drop_last() =~= entries@.subrange(0, k as int));
        }
        let n = e.path.len();
        if e.is_dir {
            out.push(UnpackStep::CreateDir(copy_path(&e.path, n)));
        } else {
            if n > 1 {
                out.push(UnpackStep::CreateDir(copy_path(&e.path, n - 1)));
            }
            out.push(UnpackStep::WriteFile(copy_path(&e.path, n), e.data.clone()));
        }
        match e.unix_mode {
            Some(m) => out.push(UnpackStep::SetMode(copy_path(&e.path, n), m)),
            None => {},
        }
        proof {
            assert(p.subrange(0, n as int) =~= p);
            if n > 1 {
                assert(p.subrange(0, n - 1) =~= p.drop_last());
            }
            assert(steps_view(out@) =~= before + entry_steps(*e));
        }
        k += 1;
    }
    proof {
        assert(entries@.subrange(0, k as int) =~= entries@);
    }
    out
}

} // verus!
