//! The arguments of the `import-xref` and `import-scholarly` commands, and the
//! floor under which a cross-reference file counts as incomplete.
use vstd::prelude::*;
use vstd::string::StringExecFns;

use crate::scholarly::{dataset_ids, default_datasets};
use crate::sorted::strs;
use crate::text::{
    chars_of, copy_str, decimal, lower_chars, lower_seq, push_decimal, split, split_chars, string_of, trim,
    trim_chars,
};

verus! {

/// Options shared by the download-and-store commands.
#[derive(Debug, Clone, PartialEq, Eq)]
pub struct SeedOptions {
    /// Dataset ids (only `import-scholarly` takes them).
    pub versions: Vec<String>,
    /// Store path (`None`: the default one).
    pub db_path: Option<String>,
    /// Folder of the raw files.
    pub seed_dir: String,
    /// Download again even when the file is there.
    pub force: bool,
    /// Never download.
    pub offline: bool,
}

pub type SeedState = (Seq<Seq<char>>, Option<Seq<char>>, Seq<char>, bool, bool);

pub open spec fn seed_view(o: SeedOptions) -> SeedState {
    (
        strs(o.versions@),
        match o.db_path {
            Some(p) => Some(p@),
            None => None,
        },
        o.seed_dir@,
        o.force,
        o.offline,
    )
}

/// The non-empty trimmed pieces of a list split at commas, in ASCII lowercase.
pub open spec fn lower_items(ps: Seq<Seq<char>>) -> Seq<Seq<char>>
    decreases ps.len(),
{
    if ps.len() == 0 {
        seq![]
    } else {
        let rest = lower_items(ps.drop_last());
        let t = trim(ps.last());
        if t.len() > 0 {
            rest.push(lower_seq(t))
        } else {
            rest
        }
    }
}

/// The state after the arguments from `i` on, or the error. `cmd` names the
/// command in the error for an unknown argument; `lists` says whether
/// `--version` is taken (it replaces the list given before).
pub open spec fn seed_args_from(args: Seq<Seq<char>>, i: int, st: SeedState, cmd: Seq<char>, lists: bool) -> Result<
    SeedState,
    Seq<char>,
>
    decreases args.len() - i,
{
    if i < 0 || i >= args.len() {
        Ok(st)
    } else {
        let a = args[i];
        if lists && a == "--version"@ {
            if i + 1 >= args.len() {
                Err("--version requer uma lista (ex.: tahot,tagnt)"@)
            } else {
                seed_args_from(args, i + 2, (lower_items(split(args[i + 1], ',')), st.1, st.2, st.3, st.4), cmd, lists)
            }
        } else if a == "--db"@ {
            if i + 1 >= args.len() {
                Err("--db requer caminho"@)
            } else {
                seed_args_from(args, i + 2, (st.0, Some(args[i + 1]), st.2, st.3, st.4), cmd, lists)
            }
        } else if a == "--seed-dir"@ {
            if i + 1 >= args.len() {
                Err("--seed-dir requer caminho"@)
            } else {
                seed_args_from(args, i + 2, (st.0, st.1, args[i + 1], st.3, st.4), cmd, lists)
            }
        } else if a == "--force"@ {
            seed_args_from(args, i + 1, (st.0, st.1, st.2, true, st.4), cmd, lists)
        } else if a == "--offline"@ {
            seed_args_from(args, i + 1, (st.0, st.1, st.2, st.3, true), cmd, lists)
        } else {
            Err("argumento desconhecido para `"@ + cmd + "`: "@ + a)
        }
    }
}

fn lower_list(v: &str) -> (r: Vec<String>)
    ensures
        strs(r@) == lower_items(split(v@, ',')),
{
    let cs = chars_of(v);
    let ps = split_chars(cs.as_slice(), ',');
    let ghost pv = split(v@, ',');
    assert(ps@.map_values(|w: Vec<char>| w@) == pv);
    let mut out: Vec<String> = Vec::new();
    let mut i: usize = 0;
    while i < ps.len()
        invariant
            i <= ps@.len(),
            ps@.map_values(|w: Vec<char>| w@) == pv,
            strs(out@) == lower_items(pv.take(i as int)),
        decreases ps@.len() - i,
    {
        assert(ps@[i as int]@ == pv[i as int]);
        let t = trim_chars(ps[i].as_slice());
        assert(pv.take(i + 1).drop_last() =~= pv.take(i as int));
        if t.len() > 0 {
            let l = lower_chars(t.as_slice());
            let ghost o0 = out@;
            out.push(string_of(l.as_slice()));
            assert(strs(out@) =~= strs(o0).push(lower_seq(t@)));
        }
        i = i + 1;
    }
    assert(pv.take(ps@.len() as int) =~= pv);
    out
}

fn parse_seed_args(args: &[String], seed_dir: &str, cmd: &str, lists: bool) -> (r: Result<SeedOptions, String>)
    ensures
        match seed_args_from(strs(args@), 0, (seq![], None, seed_dir@, false, false), cmd@, lists) {
            Ok(st) => r matches Ok(o) && seed_view(o) == st,
            Err(m) => r matches Err(e) && e@ == m,
        },
{
    let ghost av = strs(args@);
    let mut versions: Vec<String> = Vec::new();
    let mut db_path: Option<String> = None;
    let mut seed = copy_str(seed_dir);
    let mut force = false;
    let mut offline = false;
    let mut i: usize = 0;
    assert(strs(versions@) =~= Seq::<Seq<char>>::empty());
    while i < args.len()
        invariant
            i <= args@.len(),
            av == strs(args@),
            seed_args_from(av, 0, (seq![], None, seed_dir@, false, false), cmd@, lists) == seed_args_from(
                av,
                i as int,
                seed_view(SeedOptions { versions, db_path, seed_dir: seed, force, offline }),
                cmd@,
                lists,
            ),
        decreases args@.len() - i,
    {
        let a = args[i].as_str();
        assert(a@ == av[i as int]);
        if lists && crate::text::str_eq(a, "--version") {
            if i + 1 >= args.len() {
                return Err(copy_str("--version requer uma lista (ex.: tahot,tagnt)"));
            }
            versions = lower_list(args[i + 1].as_str());
            assert(args@[i + 1]@ == av[i + 1]);
            i = i + 2;
        } else if crate::text::str_eq(a, "--db") {
            if i + 1 >= args.len() {
                return Err(copy_str("--db requer caminho"));
            }
            db_path = Some(copy_str(args[i + 1].as_str()));
            assert(args@[i + 1]@ == av[i + 1]);
            i = i + 2;
        } else if crate::text::str_eq(a, "--seed-dir") {
            if i + 1 >= args.len() {
                return Err(copy_str("--seed-dir requer caminho"));
            }
            seed = copy_str(args[i + 1].as_str());
            assert(args@[i + 1]@ == av[i + 1]);
            i = i + 2;
        } else if crate::text::str_eq(a, "--force") {
            force = true;
            i = i + 1;
        } else if crate::text::str_eq(a, "--offline") {
            offline = true;
            i = i + 1;
        } else {
            let mut m = copy_str("argumento desconhecido para `");
            m.append(cmd);
            m.append("`: ");
            m.append(a);
            return Err(m);
        }
    }
    Ok(SeedOptions { versions, db_path, seed_dir: seed, force, offline })
}

/// Parses the arguments of `import-xref` (raw files under `data/seed`).
pub fn parse_xref_args(args: &[String]) -> (r: Result<SeedOptions, String>)
    ensures
        match seed_args_from(strs(args@), 0, (seq![], None, "data/seed"@, false, false), "import-xref"@, false) {
            Ok(st) => r matches Ok(o) && seed_view(o) == st,
            Err(m) => r matches Err(e) && e@ == m,
        },
{
    parse_seed_args(args, "data/seed", "import-xref", false)
}

/// Parses the arguments of `import-scholarly` (raw files under
/// `data/seed/scholarly`); without `--version`, or with an empty list, every
/// dataset is asked for.
pub fn parse_scholarly_args(args: &[String]) -> (r: Result<SeedOptions, String>)
    ensures
        match seed_args_from(
            strs(args@),
            0,
            (seq![], None, "data/seed/scholarly"@, false, false),
            "import-scholarly"@,
            true,
        ) {
            Ok(st) => r matches Ok(o) && seed_view(o) == (
                if st.0.len() == 0 { dataset_ids() } else { st.0 },
                st.1,
                st.2,
                st.3,
                st.4,
            ),
            Err(m) => r matches Err(e) && e@ == m,
        },
{
    match parse_seed_args(args, "data/seed/scholarly", "import-scholarly", true) {
        Ok(o) => {
            if o.versions.len() == 0 {
                let d = default_datasets();
                Ok(SeedOptions { versions: d, db_path: o.db_path, seed_dir: o.seed_dir, force: o.force, offline: o.offline })
            } else {
                Ok(o)
            }
        },
        Err(e) => Err(e),
    }
}

/// The least number of rows of a complete cross-reference file.
pub open spec fn xref_floor() -> nat {
    300000
}

/// The error for a cross-reference file with too few rows.
pub open spec fn too_few_xrefs_message(n: nat) -> Seq<char> {
    "apenas "@ + decimal(n) + " referências cruzadas parseadas (esperado ~344.799); fonte incompleta?"@
}

/// Refuses a cross-reference file with fewer rows than the complete one has.
pub fn check_xref_count(count: usize) -> (r: Result<(), String>)
    ensures
        count < xref_floor() ==> (r matches Err(m) && m@ == too_few_xrefs_message(count as nat)),
        count >= xref_floor() ==> r is Ok,
{
    if count < 300000 {
        let mut m = copy_str("apenas ");
        push_decimal(&mut m, count as u64);
        m.append(" referências cruzadas parseadas (esperado ~344.799); fonte incompleta?");
        Err(m)
    } else {
        Ok(())
    }
}

} // verus!
