//! Where `git clone` puts a repository, read from the clone's arguments.
use vstd::prelude::*;

use crate::config::{join_path, joined};
use crate::registry::{last_component, PrjError};

verus! {

/// The arguments that are not flags (do not start with `-`), in order.
pub open spec fn positional(args: Seq<Seq<char>>) -> Seq<Seq<char>>
    decreases args.len(),
{
    if args.len() == 0 {
        args
    } else {
        let rest = positional(args.drop_last());
        if args.last().len() > 0 && args.last()[0] == '-' {
            rest
        } else {
            rest.push(args.last())
        }
    }
}

/// `s` with every trailing `.git` removed.
pub open spec fn trim_git(s: Seq<char>) -> Seq<char>
    decreases s.len(),
{
    if s.len() >= 4 && s.subrange(s.len() - 4, s.len() as int) == ".git"@ {
        trim_git(s.subrange(0, s.len() - 4))
    } else {
        s
    }
}

fn trim_git_suffix(s: &str) -> (r: String)
    ensures
        r@ == trim_git(s@),
{
    proof {
        reveal_strlit(".git");
    }
    let mut n = s.unicode_len();
    assert(s@.subrange(0, n as int) =~= s@);
    while n >= 4 && s.get_char(n - 4) == '.' && s.get_char(n - 3) == 'g' && s.get_char(n - 2) == 'i'
        && s.get_char(n - 1) == 't'
        invariant
            n <= s@.len(),
            trim_git(s@) == trim_git(s@.subrange(0, n as int)),
        decreases n,
    {
        let ghost t = s@.subrange(0, n as int);
        proof {
            reveal_strlit(".git");
        }
        assert(t.subrange(t.len() - 4, t.len() as int) =~= ".git"@);
        assert(t.subrange(0, t.len() - 4) =~= s@.subrange(0, n - 4));
        n = n - 4;
    }
    proof {
        let t = s@.subrange(0, n as int);
        if n >= 4 {
            if t.subrange(t.len() - 4, t.len() as int) == ".git"@ {
                assert(t.subrange(t.len() - 4, t.len() as int)[0] == '.');
                assert(t.subrange(t.len() - 4, t.len() as int)[1] == 'g');
                assert(t.subrange(t.len() - 4, t.len() as int)[2] == 'i');
                assert(t.subrange(t.len() - 4, t.len() as int)[3] == 't');
            }
        }
    }
    String::from_str(s.substring_char(0, n))
}

fn last_segment(s: &str) -> (r: String)
    ensures
        r@ == last_component(s@),
{
    let n = s.unicode_len();
    let mut k: usize = n;
    assert(s@.skip(n as int) =~= Seq::<char>::empty());
    assert(s@.take(n as int) =~= s@);
    while k > 0 && s.get_char(k - 1) != '/'
        invariant
            n == s@.len(),
            k <= n,
            last_component(s@) == last_component(s@.take(k as int)) + s@.skip(k as int),
        decreases k,
    {
        assert(s@.take(k as int).drop_last() =~= s@.take(k - 1));
        assert(s@.skip(k - 1) =~= seq![s@[k - 1]] + s@.skip(k as int));
        assert(last_component(s@.take(k - 1)).push(s@[k - 1]) + s@.skip(k as int)
            =~= last_component(s@.take(k - 1)) + s@.skip(k - 1));
        k = k - 1;
    }
    proof {
        if k > 0 {
            assert(s@.take(k as int).last() == s@[k - 1]);
        }
        assert(last_component(s@.take(k as int)) =~= Seq::<char>::empty());
        assert(last_component(s@) =~= s@.skip(k as int));
    }
    String::from_str(s.substring_char(k, n))
}

/// The directory that `git clone` with arguments `args`, run in `cwd`,
/// clones into: with one positional argument, the URL's last segment without
/// `.git`, under `cwd`; with more, the last positional argument.
pub fn determine_clone_dest(args: &[String], cwd: &str) -> (r: Result<String, PrjError>)
    ensures
        ({
            let pos = positional(args@.map_values(|a: String| a@));
            &&& pos.len() == 0 ==> (r matches Err(PrjError::CloneDestUnknown(m)) && m@ == "no URL provided"@)
            &&& pos.len() == 1 && trim_git(last_component(pos[0])).len() == 0 ==> (r matches Err(PrjError::CloneDestUnknown(m)) && m@ == pos[0])
            &&& pos.len() == 1 && trim_git(last_component(pos[0])).len() > 0 ==> (r matches Ok(d) && d@ == joined(cwd@, trim_git(last_component(pos[0]))))
            &&& pos.len() >= 2 ==> (r matches Ok(d) && d@ == pos[pos.len() - 1])
        }),
{
    let ghost all = args@.map_values(|a: String| a@);
    let mut pos: Vec<&String> = Vec::new();
    let mut k: usize = 0;
    assert(all.take(0) =~= Seq::<Seq<char>>::empty());
    while k < args.len()
        invariant
            k <= args@.len(),
            all == args@.map_values(|a: String| a@),
            pos@.map_values(|a: &String| a@) == positional(all.take(k as int)),
        decreases args@.len() - k,
    {
        let ghost before = pos@.map_values(|a: &String| a@);
        assert(all.take(k + 1).drop_last() =~= all.take(k as int));
        let a = &args[k];
        let is_flag = a.as_str().unicode_len() > 0 && a.as_str().get_char(0) == '-';
        if !is_flag {
            pos.push(a);
            assert(pos@.map_values(|a: &String| a@) =~= before.push(all[k as int]));
        }
        k = k + 1;
    }
    assert(all.take(k as int) =~= all);
    let ghost pv = pos@.map_values(|a: &String| a@);
    if pos.len() == 0 {
        proof {
            reveal_strlit("no URL provided");
        }
        return Err(PrjError::CloneDestUnknown(String::from_str("no URL provided")));
    }
    if pos.len() == 1 {
        let url = pos[0];
        assert(url@ == pv[0]);
        let name = trim_git_suffix(last_segment(url.as_str()).as_str());
        if name.as_str().unicode_len() == 0 {
            return Err(PrjError::CloneDestUnknown(url.clone()));
        }
        return Ok(join_path(cwd, name.as_str()));
    }
    let last = pos[pos.len() - 1];
    assert(last@ == pv[pv.len() - 1]);
    Ok(last.clone())
}

} // verus!
