use vstd::prelude::*;

verus! {

/// Where the mission scripting file lies under an installation directory.
pub const MISSION_SCRIPTING_PATH: &'static str = "Scripts\\MissionScripting.lua";

/// The uninstall registry key of the open beta installation.
pub const OPEN_BETA_UNINSTALL_KEY: &'static str =
    "SOFTWARE\\Microsoft\\Windows\\CurrentVersion\\Uninstall\\DCS World OpenBeta_is1";

/// The uninstall registry key of the stable installation.
pub const STABLE_UNINSTALL_KEY: &'static str =
    "SOFTWARE\\Microsoft\\Windows\\CurrentVersion\\Uninstall\\DCS World_is1";

/// The installation directories that were found, open beta first.
pub open spec fn found_directories(open_beta: Option<Seq<char>>, stable: Option<Seq<char>>) -> Seq<
    Seq<char>,
> {
    let first = match open_beta {
        Some(d) => seq![d],
        None => Seq::empty(),
    };
    match stable {
        Some(d) => first.push(d),
        None => first,
    }
}

/// Collects the installation directories that the two lookups found, the
/// open beta one first; a failed lookup is left out.
pub fn get_dcs_directories(open_beta: Option<String>, stable: Option<String>) -> (r: Vec<String>)
    ensures
        r@.map_values(|s: String| s@) == found_directories(
            match open_beta {
                Some(d) => Some(d@),
                None => None,
            },
            match stable {
                Some(d) => Some(d@),
                None => None,
            },
        ),
{
    let mut paths: Vec<String> = Vec::new();
    if let Some(d) = open_beta {
        paths.push(d);
    }
    if let Some(d) = stable {
        paths.push(d);
    }
    assert(paths@.map_values(|s: String| s@) =~= found_directories(
        match open_beta {
            Some(d) => Some(d@),
            None => None,
        },
        match stable {
            Some(d) => Some(d@),
            None => None,
        },
    ));
    paths
}

/// The path of the mission scripting file under each installation
/// directory, in the same order.
pub fn get_mission_scripting_paths(directories: &Vec<String>) -> (r: Vec<String>)
    ensures
        r.len() == directories.len(),
        forall|i: int|
            0 <= i < r.len() ==> #[trigger] r[i]@ == directories[i]@ + MISSION_SCRIPTING_PATH@,
{
    let mut paths: Vec<String> = Vec::new();
    let n = directories.len();
    for i in 0..n
        invariant
            n == directories.len(),
            paths.len() == i,
            forall|j: int|
                0 <= j < i ==> #[trigger] paths[j]@ == directories[j]@ + MISSION_SCRIPTING_PATH@,
    {
        let mut path = directories[i].clone();
        path.append(MISSION_SCRIPTING_PATH);
        paths.push(path);
    }
    paths
}

} // verus!
