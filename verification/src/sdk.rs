//! Where the Android SDK and its tools lie.
use vstd::prelude::*;

verus! {

/// Where `avdmanager` lies below the SDK root in a current SDK.
pub const AVDMANAGER_LATEST: &'static str = "cmdline-tools/latest/bin/avdmanager";

/// Where `avdmanager` lies below the SDK root in an old SDK.
pub const AVDMANAGER_LEGACY: &'static str = "tools/bin/avdmanager";

/// Where `adb` lies below the SDK root.
pub const ADB: &'static str = "platform-tools/adb";

/// Where `emulator` lies below the SDK root.
pub const EMULATOR: &'static str = "emulator/emulator";

/// A place where the SDK may have been installed.
#[derive(Clone, Copy, Debug, PartialEq, Eq)]
pub enum SdkLocation {
    /// The directory that an environment variable names.
    Variable(&'static str),
    /// A directory below the user's home directory.
    UnderHome(&'static str),
}

/// The well-known places for the SDK, in the order in which they are searched.
pub open spec fn search_order() -> Seq<SdkLocation> {
    seq![
        SdkLocation::Variable("ANDROID_SDK_ROOT"),
        SdkLocation::Variable("ANDROID_HOME"),
        SdkLocation::UnderHome("Library/Android/sdk"),
        SdkLocation::UnderHome("Android/Sdk"),
    ]
}

/// The well-known places for the SDK, in the order in which they are searched.
pub fn sdk_locations() -> (locations: Vec<SdkLocation>)
    ensures
        locations@ == search_order(),
{
    vec![
        SdkLocation::Variable("ANDROID_SDK_ROOT"),
        SdkLocation::Variable("ANDROID_HOME"),
        SdkLocation::UnderHome("Library/Android/sdk"),
        SdkLocation::UnderHome("Android/Sdk"),
    ]
}

/// The first item that is there.
pub open spec fn first_found<P>(found: Seq<Option<P>>) -> Option<P>
    decreases found.len(),
{
    if found.len() == 0 {
        None
    } else if found[0] is Some {
        found[0]
    } else {
        first_found(found.drop_first())
    }
}

/// Searches well-known environment variables and default install locations
/// for the Android SDK root directory. `found` holds, in the order of [`sdk_locations`], the
/// directory at each place, or `None` where there is none.
pub fn discover_sdk_root<P>(found: Vec<Option<P>>) -> (root: Option<P>)
    ensures
        root == first_found(found@),
{
    let ghost all = found@;
    let mut places = found;
    let mut i: usize = 0;
    assert(all.skip(0) =~= all);
    while i < places.len()
        invariant
            i <= places@.len(),
            places@ == all,
            all == found@,
            first_found(all.skip(i as int)) == first_found(all),
        decreases places@.len() - i,
    {
        let ghost rest = all.skip(i as int);
        if places[i].is_some() {
            return places.swap_remove(i);
        }
        assert(rest.drop_first() =~= all.skip(i + 1));
        i += 1;
    }
    None
}

/// The search gives the first place that has the SDK: no earlier place has it.
pub proof fn lemma_first_place_wins<P>(found: Seq<Option<P>>, i: int)
    requires
        0 <= i < found.len(),
        found[i] is Some,
        forall|j: int| 0 <= j < i ==> #[trigger] found[j] is None,
    ensures
        first_found(found) == found[i],
    decreases found.len(),
{
    if i > 0 {
        lemma_first_place_wins(found.drop_first(), i - 1);
    }
}

/// The search comes to nothing when, and only when, no place has the SDK.
pub proof fn lemma_nothing_found<P>(found: Seq<Option<P>>)
    ensures
        first_found(found) is None <==> (forall|i: int|
            0 <= i < found.len() ==> #[trigger] found[i] is None),
    decreases found.len(),
{
    if found.len() > 0 {
        let rest = found.drop_first();
        lemma_nothing_found(rest);
        if found[0] is None && first_found(rest) is None {
            assert forall|i: int| 0 <= i < found.len() implies #[trigger] found[i] is None by {
                if i > 0 {
                    assert(rest[i - 1] == found[i]);
                }
            }
        }
    }
}

/// The environment is searched before the home directory: first `ANDROID_SDK_ROOT`, then
/// `ANDROID_HOME`, then the places where the SDK is installed on macOS and on Linux.
pub proof fn lemma_search_order()
    ensures
        search_order().len() == 4,
        search_order()[0] == SdkLocation::Variable("ANDROID_SDK_ROOT"),
        search_order()[1] == SdkLocation::Variable("ANDROID_HOME"),
        search_order()[2] == SdkLocation::UnderHome("Library/Android/sdk"),
        search_order()[3] == SdkLocation::UnderHome("Android/Sdk"),
{
}

/// Which tools exist below the SDK root.
#[derive(Clone, Copy, Debug, PartialEq, Eq)]
pub struct SdkTools {
    pub avdmanager_latest: bool,
    pub avdmanager_legacy: bool,
    pub adb: bool,
    pub emulator: bool,
}

} // verus!
