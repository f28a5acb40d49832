//! Planning: fold what a command needs into the resolution plan.
//!
//! For a search, the selected teams' patterns extend the include set; the
//! manifest's explicitly ownerless patterns, together with the user's own
//! exclusions, extend the user-exclude set. With no team named at all,
//! the selection falls back to every team of the manifest. For orphan
//! detection, everything is included instead. All merges return new
//! values; the given settings are never shared.

use vstd::prelude::*;

use crate::codeowners::{spec_patterns_for_team, team_index, CodeOwners};
use crate::error::TeamSearchError;
use crate::paths::contains_string;
use crate::settings::{
    clone_patterns, pattern_list_ok, pattern_views, FilePattern, FilePatternSet,
    FileResolverSettings, Settings,
};

verus! {

/// The team names kept from index `j` on: those the manifest knows, each
/// at its first occurrence.
pub open spec fn known_teams_from(
    teams_model: Seq<(Seq<char>, Seq<Seq<char>>)>,
    names: Seq<Seq<char>>,
    j: int,
    acc: Seq<Seq<char>>,
) -> Seq<Seq<char>>
    decreases names.len() - j,
{
    if j < 0 || j >= names.len() {
        acc
    } else {
        let keep = team_index(teams_model, names[j]) >= 0 && !acc.contains(names[j]);
        known_teams_from(
            teams_model,
            names,
            j + 1,
            if keep {
                acc.push(names[j])
            } else {
                acc
            },
        )
    }
}

/// The known teams among the requested names, deduplicated, in request
/// order.
pub open spec fn spec_known_teams(
    teams_model: Seq<(Seq<char>, Seq<Seq<char>>)>,
    names: Seq<Seq<char>>,
) -> Seq<Seq<char>> {
    known_teams_from(teams_model, names, 0, Seq::empty())
}

/// The include set after the first `j` selected teams' patterns have been
/// folded in, one team at a time, every extension putting the new
/// patterns in front.
pub open spec fn includes_upto(
    inc0: Seq<Seq<char>>,
    teams_model: Seq<(Seq<char>, Seq<Seq<char>>)>,
    names: Seq<Seq<char>>,
    j: int,
) -> Seq<Seq<char>>
    decreases j,
{
    if j <= 0 {
        inc0
    } else {
        spec_patterns_for_team(teams_model, names[j - 1]) + includes_upto(
            inc0,
            teams_model,
            names,
            j - 1,
        )
    }
}

/// The teams a search is scoped to: the requested names the manifest
/// knows, deduplicated — or every team when no name was requested.
pub open spec fn selected_teams_view(
    teams_model: Seq<(Seq<char>, Seq<Seq<char>>)>,
    names: Seq<Seq<char>>,
) -> Seq<Seq<char>> {
    if names.len() == 0 {
        teams_model.map_values(|e: (Seq<char>, Seq<Seq<char>>)| e.0)
    } else {
        spec_known_teams(teams_model, names)
    }
}

/// Whether every pattern list the find plan compiles is one the engine
/// accepts: each step of the include fold, and the extended user-exclude
/// list.
pub open spec fn plan_lists_ok(
    inc0: Seq<Seq<char>>,
    teams_model: Seq<(Seq<char>, Seq<Seq<char>>)>,
    names: Seq<Seq<char>>,
    user_exclude_list: Seq<Seq<char>>,
) -> bool {
    &&& forall|j: int|
        0 <= j < names.len() ==> pattern_list_ok(
            #[trigger] includes_upto(inc0, teams_model, names, j + 1),
        )
    &&& pattern_list_ok(user_exclude_list)
}

/// The teams the search runs for: the requested names the manifest
/// knows, deduplicated — or every team of the manifest when no name was
/// requested.
fn select_teams(codeowners: &CodeOwners, teams: &Vec<String>) -> (r: Vec<String>)
    ensures
        teams@.len() == 0 ==> r@.map_values(|t: String| t@) == codeowners.team_names_view(),
        teams@.len() > 0 ==> r@.map_values(|t: String| t@) == spec_known_teams(
            codeowners.teams_view(),
            teams@.map_values(|t: String| t@),
        ),
{
    if teams.len() == 0 {
        return codeowners.team_names();
    }
    let ghost names = teams@.map_values(|t: String| t@);
    let ghost model = codeowners.teams_view();
    let mut kept: Vec<String> = Vec::new();
    proof {
        assert(kept@.map_values(|t: String| t@) =~= Seq::<Seq<char>>::empty());
    }
    let mut j: usize = 0;
    while j < teams.len()
        invariant
            j <= teams@.len(),
            names == teams@.map_values(|t: String| t@),
            model == codeowners.teams_view(),
            known_teams_from(model, names, j as int, kept@.map_values(|t: String| t@))
                == spec_known_teams(model, names),
        decreases teams@.len() - j,
    {
        let ghost before = kept@.map_values(|t: String| t@);
        if codeowners.has_team(teams[j].as_str()) && !contains_string(&kept, teams[j].as_str()) {
            kept.push(teams[j].clone());
            proof {
                assert(kept@.map_values(|t: String| t@) =~= before.push(names[j as int]));
            }
        }
        j = j + 1;
    }
    kept
}

/// The manifest's explicitly ownerless patterns followed by the given
/// exclusions, as user patterns.
pub(crate) fn exclusion_patterns(codeowners: &CodeOwners, exclusions: Vec<String>) -> (r: Vec<
    FilePattern,
>)
    ensures
        pattern_views(r@) == codeowners.ignored_view() + exclusions@.map_values(|e: String| e@),
{
    let mut all_exclusions = clone_patterns(codeowners.get_ignored_patterns());
    let ghost ign = codeowners.ignored_view();
    let ghost exclv = exclusions@.map_values(|e: String| e@);
    let exclusion_count = exclusions.len();
    proof {
        assert(exclv.len() == exclusion_count);
    }
    let mut rest = exclusions;
    let mut k: usize = 0;
    proof {
        assert(pattern_views(all_exclusions@) =~= ign + exclv.subrange(0, 0));
    }
    while rest.len() > 0
        invariant
            k <= exclv.len() <= usize::MAX,
            k + rest@.len() == exclv.len(),
            ign == codeowners.ignored_view(),
            rest@.map_values(|e: String| e@) == exclv.subrange(k as int, exclv.len() as int),
            pattern_views(all_exclusions@) == ign + exclv.subrange(0, k as int),
        decreases rest@.len(),
    {
        let ghost restv = rest@.map_values(|e: String| e@);
        let e = rest.remove(0);
        proof {
            assert(restv[0] == exclv[k as int]);
            assert(e@ == exclv[k as int]);
            assert(rest@.map_values(|t: String| t@) =~= restv.drop_first());
            assert(restv.drop_first() =~= exclv.subrange(k + 1 as int, exclv.len() as int));
        }
        let ghost before = pattern_views(all_exclusions@);
        all_exclusions.push(FilePattern::User(e));
        proof {
            assert(pattern_views(all_exclusions@) =~= before.push(exclv[k as int]));
            assert(before.push(exclv[k as int]) =~= ign + exclv.subrange(0, k + 1 as int));
        }
        k = k + 1;
    }
    proof {
        assert(exclv.subrange(0, exclv.len() as int) =~= exclv);
    }
    all_exclusions
}

/// Fold a team selection and the exclusions into the resolution plan.
///
/// Returns the augmented settings and the teams the search will run for:
/// the requested names the manifest knows, deduplicated, or every team in
/// wildcard mode. The include set is extended with each selected team's
/// patterns; the user-exclude set with the manifest's ownerless patterns
/// followed by the given exclusions. It succeeds exactly when every
/// pattern list it compiles along the way is one the engine accepts.
pub fn plan_find(
    codeowners: &CodeOwners,
    settings: Settings,
    teams: &Vec<String>,
    exclusions: Vec<String>,
) -> (r: Result<(Settings, Vec<String>), TeamSearchError>)
    requires
        settings.file_resolver.wf(),
    ensures
        r is Ok <==> plan_lists_ok(
            settings.file_resolver.includes@,
            codeowners.teams_view(),
            selected_teams_view(codeowners.teams_view(), teams@.map_values(|t: String| t@)),
            (codeowners.ignored_view() + exclusions@.map_values(|e: String| e@))
                + settings.file_resolver.user_exclude@,
        ),
        r matches Ok(p) ==> {
            &&& p.1@.map_values(|t: String| t@) == selected_teams_view(
                codeowners.teams_view(),
                teams@.map_values(|t: String| t@),
            )
            &&& p.0.file_resolver.wf()
            &&& p.0.file_resolver.includes@ == includes_upto(
                settings.file_resolver.includes@,
                codeowners.teams_view(),
                p.1@.map_values(|t: String| t@),
                p.1@.len() as int,
            )
            &&& p.0.file_resolver.user_exclude@ == (codeowners.ignored_view()
                + exclusions@.map_values(|e: String| e@)) + settings.file_resolver.user_exclude@
            &&& p.0.file_resolver.exclude@ == settings.file_resolver.exclude@
            &&& p.0.file_resolver.force_exclude == settings.file_resolver.force_exclude
            &&& p.0.respect_gitignore == settings.respect_gitignore
            &&& p.0.codeowners == settings.codeowners
        },
        r matches Err(e) ==> e is InvalidPatternError,
{
    let kept = select_teams(codeowners, teams);
    let ghost keptv = kept@.map_values(|t: String| t@);
    let ghost model = codeowners.teams_view();
    let ghost uex_list = (codeowners.ignored_view() + exclusions@.map_values(|e: String| e@))
        + settings.file_resolver.user_exclude@;
    proof {
        assert(keptv == selected_teams_view(model, teams@.map_values(|t: String| t@)));
    }
    let Settings { respect_gitignore, codeowners: manifest_path, file_resolver } = settings;
    let FileResolverSettings { includes, exclude, user_exclude, force_exclude } = file_resolver;
    let ghost inc0 = includes@;
    let ghost uex0 = user_exclude@;
    let mut inc = includes;
    let mut j: usize = 0;
    while j < kept.len()
        invariant
            j <= kept@.len(),
            keptv == kept@.map_values(|t: String| t@),
            keptv == selected_teams_view(model, teams@.map_values(|t: String| t@)),
            model == codeowners.teams_view(),
            inc0 == settings.file_resolver.includes@,
            uex_list == (codeowners.ignored_view() + exclusions@.map_values(|e: String| e@))
                + settings.file_resolver.user_exclude@,
            inc.wf(),
            inc@ == includes_upto(inc0, model, keptv, j as int),
            forall|t: int|
                0 <= t < j ==> pattern_list_ok(#[trigger] includes_upto(inc0, model, keptv, t + 1)),
        decreases kept@.len() - j,
    {
        let pats = codeowners.get_patterns_for_team(kept[j].as_str());
        let ghost before = inc@;
        inc = match inc.extend(pats) {
            Ok(s) => s,
            Err(e) => {
                proof {
                    assert(!pattern_list_ok(
                        spec_patterns_for_team(model, keptv[j as int]) + before,
                    ));
                    assert(!pattern_list_ok(includes_upto(inc0, model, keptv, j + 1)));
                }
                return Err(e);
            },
        };
        proof {
            assert(inc@ == spec_patterns_for_team(model, keptv[j as int]) + before);
            assert(pattern_list_ok(includes_upto(inc0, model, keptv, j + 1)));
        }
        j = j + 1;
    }
    let all_exclusions = exclusion_patterns(codeowners, exclusions);
    let uex = match user_exclude.extend(all_exclusions) {
        Ok(s) => s,
        Err(e) => {
            proof {
                assert(!pattern_list_ok(uex_list));
            }
            return Err(e);
        },
    };
    proof {
        assert(uex@ == uex_list);
        assert(pattern_list_ok(uex_list));
    }
    let out = Settings {
        respect_gitignore,
        codeowners: manifest_path,
        file_resolver: FileResolverSettings {
            includes: inc,
            exclude,
            user_exclude: uex,
            force_exclude,
        },
    };
    Ok((out, kept))
}

/// Fold the orphan command's needs into the resolution plan: include every
/// path, and exclude the manifest's explicitly ownerless patterns together
/// with the given exclusions, so that paths owned by nobody on purpose are
/// not reported as orphans. It succeeds exactly when the two extended
/// pattern lists compile.
pub fn plan_orphans(codeowners: &CodeOwners, settings: Settings, exclusions: Vec<String>) -> (r:
    Result<Settings, TeamSearchError>)
    requires
        settings.file_resolver.wf(),
    ensures
        r is Ok <==> pattern_list_ok(seq!["**"@] + settings.file_resolver.includes@)
            && pattern_list_ok(
            (codeowners.ignored_view() + exclusions@.map_values(|e: String| e@))
                + settings.file_resolver.user_exclude@,
        ),
        r matches Ok(s) ==> {
            &&& s.file_resolver.wf()
            &&& s.file_resolver.includes@ == seq!["**"@] + settings.file_resolver.includes@
            &&& s.file_resolver.user_exclude@ == (codeowners.ignored_view()
                + exclusions@.map_values(|e: String| e@)) + settings.file_resolver.user_exclude@
            &&& s.file_resolver.exclude@ == settings.file_resolver.exclude@
            &&& s.file_resolver.force_exclude == settings.file_resolver.force_exclude
            &&& s.respect_gitignore == settings.respect_gitignore
            &&& s.codeowners == settings.codeowners
        },
        r matches Err(e) ==> e is InvalidPatternError,
{
    let Settings { respect_gitignore, codeowners: manifest_path, file_resolver } = settings;
    let FileResolverSettings { includes, exclude, user_exclude, force_exclude } = file_resolver;
    let mut all_pattern: Vec<FilePattern> = Vec::new();
    all_pattern.push(FilePattern::all());
    proof {
        assert(pattern_views(all_pattern@) =~= seq!["**"@]);
    }
    let inc = match includes.extend(all_pattern) {
        Ok(s) => s,
        Err(e) => {
            return Err(e);
        },
    };
    let all_exclusions = exclusion_patterns(codeowners, exclusions);
    let uex = match user_exclude.extend(all_exclusions) {
        Ok(s) => s,
        Err(e) => {
            return Err(e);
        },
    };
    Ok(
        Settings {
            respect_gitignore,
            codeowners: manifest_path,
            file_resolver: FileResolverSettings {
                includes: inc,
                exclude,
                user_exclude: uex,
                force_exclude,
            },
        },
    )
}

} // verus!
