//! Switching scenes: the scene to load next, and where a scene is stored.
use vstd::prelude::*;

verus! {

/// Requests `scene` as the next scene, provided it exists on disk (as
/// `scene_exists` reports). Returns whether the request was accepted; a
/// refused request leaves the pending one as it was.
pub fn set_next_scene<S>(next_scene: &mut Option<S>, scene: S, scene_exists: bool) -> (accepted:
    bool)
    ensures
        accepted == scene_exists,
        scene_exists ==> *final(next_scene) == Some(scene),
        !scene_exists ==> *final(next_scene) == *old(next_scene),
{
    if scene_exists == false {
        return false;
    }
    *next_scene = Some(scene);
    true
}

/// Where a scene is stored: `<prefab_directory>/<name>.prefab` for a
/// prefab, `<scene_directory>/<name>` otherwise.
pub fn scene_path(name: &str, is_prefab: bool, prefab_directory: &str, scene_directory: &str) -> (path:
    String)
    ensures
        is_prefab ==> path@ == prefab_directory@ + seq!['/'] + name@ + seq![
            '.',
            'p',
            'r',
            'e',
            'f',
            'a',
            'b',
        ],
        !is_prefab ==> path@ == scene_directory@ + seq!['/'] + name@,
{
    proof {
        reveal_strlit("/");
        reveal_strlit(".prefab");
    }
    if is_prefab {
        let mut path = String::from_str(prefab_directory);
        path.append("/");
        path.append(name);
        path.append(".prefab");
        path
    } else {
        let mut path = String::from_str(scene_directory);
        path.append("/");
        path.append(name);
        path
    }
}

} // verus!
