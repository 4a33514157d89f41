//! The list of releases that the server publishes.
use vstd::prelude::*;

use crate::json::Json;
use crate::text::same_text;

verus! {

/// The identifier of the latest release, where the list gives one.
pub open spec fn latest_release(manifest: Json) -> Option<Seq<char>> {
    manifest.field("latest"@).field("release"@).text()
}

/// The first version whose identifier is `id`. Where `id` is `None`, that is the first version
/// without an identifier.
pub open spec fn first_version(versions: Seq<Json>, id: Option<Seq<char>>) -> Option<Json>
    decreases versions.len(),
{
    if versions.len() == 0 {
        None
    } else if versions[0].field("id"@).text() == id {
        Some(versions[0])
    } else {
        first_version(versions.skip(1), id)
    }
}

/// The address of the document of the latest release, where the list gives one.
pub open spec fn latest_url(manifest: Json) -> Option<Seq<char>> {
    match manifest.field("versions"@).items() {
        None => None,
        Some(versions) => match first_version(versions, latest_release(manifest)) {
            None => None,
            Some(version) => version.field("url"@).text(),
        },
    }
}

/// Whether two optional strings are the same.
fn same_id(left: Option<&str>, right: Option<&str>) -> (same: bool)
    ensures
        same == match (left, right) {
            (Some(l), Some(r)) => l@ == r@,
            (None, None) => true,
            _ => false,
        },
{
    match (left, right) {
        (Some(left), Some(right)) => same_text(left, right),
        (None, None) => true,
        _ => false,
    }
}

/// The address of the document of the latest release. `None` where the list holds no versions, not
/// the latest one, or no address for it.
pub fn find_release_url(version_manifest: &Json) -> (url: Option<String>)
    ensures
        match url {
            Some(url) => latest_url(*version_manifest) == Some(url@),
            None => latest_url(*version_manifest) is None,
        },
{
    let latest = version_manifest.get("latest").get("release").as_str();
    let versions = match version_manifest.get("versions").as_array() {
        Some(versions) => versions,
        None => return None,
    };
    let ghost id = latest_release(*version_manifest);
    proof {
        assert(versions@.skip(0) =~= versions@);
    }
    for i in 0..versions.len()
        invariant
            version_manifest.field("versions"@).items() == Some(versions@),
            id == latest_release(*version_manifest),
            match latest {
                Some(latest) => id == Some(latest@),
                None => id is None,
            },
            first_version(versions@, id) == first_version(versions@.skip(i as int), id),
    {
        let version = &versions[i];
        assert(versions@.skip(i as int)[0] == *version);
        if same_id(version.get("id").as_str(), latest) {
            return match version.get("url").as_str() {
                Some(url) => Some(url.to_owned()),
                None => None,
            };
        }
        proof {
            assert(versions@.skip(i as int).skip(1) =~= versions@.skip(i + 1));
        }
    }
    None
}

/// The version that is found is in the list and has the identifier sought, and no version before
/// it has. None is found only where no version has it.
pub proof fn law_first_version_with_the_identifier(versions: Seq<Json>, id: Option<Seq<char>>)
    ensures
        match first_version(versions, id) {
            Some(version) => exists|k: int|
                {
                    &&& 0 <= k < versions.len()
                    &&& #[trigger] versions[k] == version
                    &&& version.field("id"@).text() == id
                    &&& forall|i: int|
                        0 <= i < k ==> (#[trigger] versions[i]).field("id"@).text() != id
                },
            None => forall|i: int|
                0 <= i < versions.len() ==> (#[trigger] versions[i]).field("id"@).text() != id,
        },
    decreases versions.len(),
{
    if versions.len() > 0 && versions[0].field("id"@).text() != id {
        let rest = versions.skip(1);
        law_first_version_with_the_identifier(rest, id);
        match first_version(rest, id) {
            Some(version) => {
                let k = choose|k: int|
                    {
                        &&& 0 <= k < rest.len()
                        &&& #[trigger] rest[k] == version
                        &&& forall|i: int|
                            0 <= i < k ==> (#[trigger] rest[i]).field("id"@).text() != id
                    };
                assert(versions[k + 1] == version);
                assert forall|i: int| 0 <= i < k + 1 implies (#[trigger] versions[i]).field(
                    "id"@,
                ).text() != id by {
                    if i > 0 {
                        assert(rest[i - 1] == versions[i]);
                    }
                }
            },
            None => {
                assert forall|i: int| 0 <= i < versions.len() implies (#[trigger] versions[i]).field(
                    "id"@,
                ).text() != id by {
                    if i > 0 {
                        assert(rest[i - 1] == versions[i]);
                    }
                }
            },
        }
    }
}

/// The address that is found is that of the first version whose identifier is what the list gives
/// as its latest release.
pub proof fn law_found_address_is_the_latest_release(manifest: Json)
    requires
        latest_url(manifest) is Some,
    ensures
        manifest.field("versions"@) matches Json::Array(versions) && exists|k: int|
            {
                &&& 0 <= k < versions@.len()
                &&& (#[trigger] versions@[k]).field("id"@).text() == manifest.field(
                    "latest"@,
                ).field("release"@).text()
                &&& versions@[k].field("url"@).text() == latest_url(manifest)
                &&& forall|i: int|
                    0 <= i < k ==> (#[trigger] versions@[i]).field("id"@).text()
                        != manifest.field("latest"@).field("release"@).text()
            },
{
    let versions = manifest.field("versions"@)->Array_0;
    law_first_version_with_the_identifier(versions@, latest_release(manifest));
}

/// Where a version is the first one with the identifier of the latest release, its address is what
/// is found, and nothing where it has none.
pub proof fn law_latest_release_is_found(manifest: Json, versions: Vec<Json>, k: int)
    requires
        manifest.field("versions"@) == Json::Array(versions),
        0 <= k < versions@.len(),
        versions@[k].field("id"@).text() == manifest.field("latest"@).field("release"@).text(),
        forall|i: int|
            0 <= i < k ==> (#[trigger] versions@[i]).field("id"@).text() != manifest.field(
                "latest"@,
            ).field("release"@).text(),
    ensures
        latest_url(manifest) == versions@[k].field("url"@).text(),
{
    let id = latest_release(manifest);
    law_first_version_with_the_identifier(versions@, id);
    let found = first_version(versions@, id);
    assert(found is Some);
    let j = choose|j: int|
        {
            &&& 0 <= j < versions@.len()
            &&& #[trigger] versions@[j] == found->0
            &&& forall|i: int| 0 <= i < j ==> (#[trigger] versions@[i]).field("id"@).text() != id
        };
    assert(j == k) by {
        if j < k {
            assert(versions@[j].field("id"@).text() != id);
        } else if k < j {
            assert(versions@[k].field("id"@).text() != id);
        }
    }
}

/// Without a list of versions, or without the latest release in it, no address is found.
pub proof fn law_no_address_without_the_latest_release(manifest: Json, versions: Vec<Json>)
    ensures
        !(manifest.field("versions"@) is Array) ==> latest_url(manifest) is None,
        ({
            &&& manifest.field("versions"@) == Json::Array(versions)
            &&& forall|i: int|
                0 <= i < versions@.len() ==> (#[trigger] versions@[i]).field("id"@).text()
                    != manifest.field("latest"@).field("release"@).text()
        }) ==> latest_url(manifest) is None,
{
    if manifest.field("versions"@) == Json::Array(versions) {
        law_first_version_with_the_identifier(versions@, latest_release(manifest));
    }
}

/// What is found depends on the versions and on the latest release alone: not on the latest
/// snapshot, nor on anything else that the list holds.
pub proof fn law_only_the_latest_release_matters(left: Json, right: Json)
    requires
        left.field("versions"@) == right.field("versions"@),
        left.field("latest"@).field("release"@) == right.field("latest"@).field("release"@),
    ensures
        latest_url(left) == latest_url(right),
{
}

} // verus!
