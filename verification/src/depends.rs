//! The dependencies between the images of a board, and what is expected of
//! an upgrade that has to respect them.

use crate::header::ImageVersion;
use vstd::prelude::*;

verus! {

/// Describes the various types of dependency information that can be
/// provided.
#[derive(Copy, Clone, Debug, PartialEq, Eq, Structural)]
pub enum DepType {
    /// Do not provide dependency information.
    Nothing,
    /// Provide dependency information that matches the other image.
    Correct,
    /// Provide a dependency that matches the old version of the other
    /// image.
    OldCorrect,
    /// Provide dependency information describing something newer than the
    /// other image.
    Newer,
    /// Don't provide an upgrade image at all for this image.
    NoUpgrade,
}

/// Describes what our expectation is for an upgrade.
#[derive(Copy, Clone, Debug, PartialEq, Eq, Structural)]
pub enum UpgradeInfo {
    /// The current version should be held.
    Held,
    /// The image should be upgraded.
    Upgraded,
}

/// An individual test of the dependency mechanism describes one of the
/// possibilities for the dependency information for each image, and what
/// the expected outcome is.
#[derive(Copy, Clone, Debug, PartialEq, Eq)]
pub struct DepTest {
    /// What kinds of dependency should be installed in the image.
    pub depends: [DepType; 2],
    /// What is the expected outcome of the upgrade.
    pub upgrades: [UpgradeInfo; 2],
    /// Should this be considered a downgrade (cause the version number to
    /// decrease).
    pub downgrade: bool,
}

/// A test of two images that is no downgrade: what each image depends on,
/// and what is expected of each.
pub open spec fn test_case(first: DepType, second: DepType, one: UpgradeInfo, other: UpgradeInfo)
    -> DepTest {
    DepTest { depends: [first, second], upgrades: [one, other], downgrade: false }
}

/// A test of two images that is no downgrade.
pub fn new_test_case(first: DepType, second: DepType, one: UpgradeInfo, other: UpgradeInfo) -> (res:
    DepTest)
    ensures
        res == test_case(first, second, one, other),
        res.depends@ == seq![first, second],
        res.upgrades@ == seq![one, other],
{
    let res = DepTest { depends: [first, second], upgrades: [one, other], downgrade: false };
    assert(res.depends@ =~= seq![first, second]);
    assert(res.upgrades@ =~= seq![one, other]);
    res
}

/// The variants of dependencies that pairs of images are tested with.
pub open spec fn spec_test_deps() -> Seq<DepTest> {
    seq![
        // A sanity test, no dependencies should upgrade.
        test_case(DepType::Nothing, DepType::Nothing, UpgradeInfo::Upgraded, UpgradeInfo::Upgraded),
        // If all of the dependencies are met, we should also upgrade.
        test_case(DepType::Correct, DepType::Correct, UpgradeInfo::Upgraded, UpgradeInfo::Upgraded),
        // If none of the dependencies are met, the images should be held.
        test_case(DepType::Newer, DepType::Newer, UpgradeInfo::Held, UpgradeInfo::Held),
        // If the first image is not met, we should hold back on the
        // dependencies (it is not well defined what the correct behavior is
        // here, it could also be correct to upgrade only the second image).
        test_case(DepType::Newer, DepType::Correct, UpgradeInfo::Held, UpgradeInfo::Held),
        // Test the variant in the other direction.
        test_case(DepType::Correct, DepType::Newer, UpgradeInfo::Held, UpgradeInfo::Held),
        // Test where only the first image is upgraded, and there are no
        // dependencies.
        test_case(DepType::Nothing, DepType::NoUpgrade, UpgradeInfo::Upgraded, UpgradeInfo::Held),
        // Test one image with a valid dependency on the first image.
        test_case(DepType::OldCorrect, DepType::NoUpgrade, UpgradeInfo::Upgraded, UpgradeInfo::Held),
        // Test one image with an invalid dependency on the first image.
        test_case(DepType::Newer, DepType::NoUpgrade, UpgradeInfo::Held, UpgradeInfo::Held),
        // Test where only the second image is upgraded, and there are no
        // dependencies.
        test_case(DepType::NoUpgrade, DepType::Nothing, UpgradeInfo::Held, UpgradeInfo::Upgraded),
        // Test one image with a valid dependency on the second image.
        test_case(DepType::NoUpgrade, DepType::OldCorrect, UpgradeInfo::Held, UpgradeInfo::Upgraded),
        // Test one image with an invalid dependency on the second image.
        test_case(DepType::NoUpgrade, DepType::Newer, UpgradeInfo::Held, UpgradeInfo::Held),
    ]
}

/// What is expected of image `i` of a pair, given what the two images
/// depend on: an image without an upgrade is held, and both are held if one
/// of them depends on a version that the other never has.
pub open spec fn expectation(depends: Seq<DepType>, i: int) -> UpgradeInfo {
    if depends[i] == DepType::NoUpgrade || depends.contains(DepType::Newer) {
        UpgradeInfo::Held
    } else {
        UpgradeInfo::Upgraded
    }
}

/// The variants of dependencies that pairs of images are tested with.
pub fn test_deps() -> (res: Vec<DepTest>)
    ensures
        res@ == spec_test_deps(),
{
    let mut res: Vec<DepTest> = Vec::new();
    // A sanity test, no dependencies should upgrade.
    res.push(new_test_case(DepType::Nothing, DepType::Nothing, UpgradeInfo::Upgraded, UpgradeInfo::Upgraded));
    // If all of the dependencies are met, we should also upgrade.
    res.push(new_test_case(DepType::Correct, DepType::Correct, UpgradeInfo::Upgraded, UpgradeInfo::Upgraded));
    // If none of the dependencies are met, the images should be held.
    res.push(new_test_case(DepType::Newer, DepType::Newer, UpgradeInfo::Held, UpgradeInfo::Held));
    // If the first image is not met, we should hold back on the
    // dependencies (it is not well defined what the correct behavior is
    // here, it could also be correct to upgrade only the second image).
    res.push(new_test_case(DepType::Newer, DepType::Correct, UpgradeInfo::Held, UpgradeInfo::Held));
    // Test the variant in the other direction.
    res.push(new_test_case(DepType::Correct, DepType::Newer, UpgradeInfo::Held, UpgradeInfo::Held));
    // Test where only the first image is upgraded, and there are no
    // dependencies.
    res.push(new_test_case(DepType::Nothing, DepType::NoUpgrade, UpgradeInfo::Upgraded, UpgradeInfo::Held));
    // Test one image with a valid dependency on the first image.
    res.push(new_test_case(DepType::OldCorrect, DepType::NoUpgrade, UpgradeInfo::Upgraded, UpgradeInfo::Held));
    // Test one image with an invalid dependency on the first image.
    res.push(new_test_case(DepType::Newer, DepType::NoUpgrade, UpgradeInfo::Held, UpgradeInfo::Held));
    // Test where only the second image is upgraded, and there are no
    // dependencies.
    res.push(new_test_case(DepType::NoUpgrade, DepType::Nothing, UpgradeInfo::Held, UpgradeInfo::Upgraded));
    // Test one image with a valid dependency on the second image.
    res.push(new_test_case(DepType::NoUpgrade, DepType::OldCorrect, UpgradeInfo::Held, UpgradeInfo::Upgraded));
    // Test one image with an invalid dependency on the second image.
    res.push(new_test_case(DepType::NoUpgrade, DepType::Newer, UpgradeInfo::Held, UpgradeInfo::Held));
    assert(res@ =~= spec_test_deps());
    res
}

/// Every test of the dependencies expects of each image what its
/// dependencies ask for, and none is a downgrade.
pub proof fn lemma_test_deps_expect(k: int, i: int)
    requires
        0 <= k < spec_test_deps().len(),
        0 <= i < 2,
    ensures
        !spec_test_deps()[k].downgrade,
        spec_test_deps()[k].upgrades@[i] == expectation(spec_test_deps()[k].depends@, i),
{
    let test = spec_test_deps()[k];
    let depends = test.depends@;
    assert(depends.len() == 2);
    assert(depends.contains(DepType::Newer) == (depends[0] == DepType::Newer || depends[1]
        == DepType::Newer)) by {
        if depends[0] == DepType::Newer || depends[1] == DepType::Newer {
            assert(depends[0] == DepType::Newer ==> depends.contains(depends[0]));
            assert(depends[1] == DepType::Newer ==> depends.contains(depends[1]));
        }
    }
}

/// A "test" that gives no dependency information.
pub open spec fn spec_no_deps() -> DepTest {
    DepTest {
        depends: [DepType::Nothing, DepType::Nothing],
        upgrades: [UpgradeInfo::Upgraded, UpgradeInfo::Upgraded],
        downgrade: false,
    }
}

/// A "test" that gives no dependency information.
pub fn no_deps() -> (res: DepTest)
    ensures
        res == spec_no_deps(),
        res.depends@ == seq![DepType::Nothing, DepType::Nothing],
        res.upgrades@ == seq![UpgradeInfo::Upgraded, UpgradeInfo::Upgraded],
        !res.downgrade,
{
    let res = DepTest {
        depends: [DepType::Nothing, DepType::Nothing],
        upgrades: [UpgradeInfo::Upgraded, UpgradeInfo::Upgraded],
        downgrade: false,
    };
    assert(res.depends@ =~= seq![DepType::Nothing, DepType::Nothing]);
    assert(res.upgrades@ =~= seq![UpgradeInfo::Upgraded, UpgradeInfo::Upgraded]);
    res
}

/// A "test" with no dependency information, and the images marked as a
/// downgrade.
pub fn rev_deps() -> (res: DepTest)
    ensures
        res.depends@ == seq![DepType::Nothing, DepType::Nothing],
        res.upgrades@ == seq![UpgradeInfo::Held, UpgradeInfo::Held],
        res.downgrade,
{
    let res = DepTest {
        depends: [DepType::Nothing, DepType::Nothing],
        upgrades: [UpgradeInfo::Held, UpgradeInfo::Held],
        downgrade: true,
    };
    assert(res.depends@ =~= seq![DepType::Nothing, DepType::Nothing]);
    assert(res.upgrades@ =~= seq![UpgradeInfo::Held, UpgradeInfo::Held]);
    res
}

/// The version of an image, made up from which image it is and which slot
/// it is put in.  The image number goes into the major version, by a factor
/// of 20, together with the slot; the slot is also the build number.  The
/// minor version can be given to force versions to be different.
pub open spec fn synthetic(image_id: u8, slot: u8, minor: u8) -> ImageVersion {
    ImageVersion {
        major: (image_id * 20 + slot) as u8,
        minor,
        revision: 1,
        build_num: slot as u32,
    }
}

/// Generate an image version based on some key information.
pub fn new_synthetic(image_id: u8, slot: u8, minor: u8) -> (res: ImageVersion)
    requires
        image_id * 20 + slot <= u8::MAX,
    ensures
        res == synthetic(image_id, slot, minor),
{
    ImageVersion { major: image_id * 20 + slot, minor, revision: 1, build_num: slot as u32 }
}

/// Where an image takes its version and its dependencies from.  An image
/// that is alone, or that is not part of a test of dependencies, has none;
/// an image that is one of a pair can depend on the other.
#[derive(Copy, Clone, Debug, PartialEq, Eq)]
pub struct Depender {
    /// The image number of this image.
    pub number: usize,
    pub test: DepTest,
    /// Whether this image is one of a pair.
    pub paired: bool,
}

impl Depender {
    /// The numbers are within what versions are made from: a lone image
    /// has a small number, an image of a pair is image 0 or image 1.
    pub open spec fn wf(&self) -> bool {
        if self.paired {
            self.number < 2
        } else {
            self.number <= 12
        }
    }

    /// The slot whose number goes into the version: the other one when a
    /// downgrade is to be shown.
    pub open spec fn version_slot(&self, slot: usize) -> usize {
        if self.test.downgrade {
            (1 - slot) as usize
        } else {
            slot
        }
    }

    /// The version of the image in the slot.
    pub open spec fn spec_version(&self, slot: usize) -> ImageVersion {
        synthetic(self.number as u8, self.version_slot(slot) as u8, 0)
    }

    /// The image that this image can depend on.
    pub open spec fn spec_other_id(&self) -> u8 {
        if self.paired {
            (1 - self.number) as u8
        } else {
            0
        }
    }

    /// The dependencies of the image in the slot.  Only an image of a pair
    /// has any, and only in the secondary slot: on the version that the
    /// other image has in the same slot, on the one it has in the primary
    /// slot, or on one that it never has.
    pub open spec fn spec_deps(&self, slot: usize) -> Seq<ImageVersion> {
        if !self.paired || slot == 0 {
            Seq::<ImageVersion>::empty()
        } else {
            match self.test.depends[self.number as int] {
                DepType::Nothing => Seq::<ImageVersion>::empty(),
                DepType::NoUpgrade => Seq::<ImageVersion>::empty(),
                DepType::Correct => seq![synthetic(self.spec_other_id(), slot as u8, 0)],
                DepType::OldCorrect => seq![synthetic(self.spec_other_id(), 0, 0)],
                DepType::Newer => seq![synthetic(self.spec_other_id(), slot as u8, 1)],
            }
        }
    }

    /// An image that is not part of a test of dependencies.
    pub fn boring(number: usize, test: &DepTest) -> (res: Depender)
        ensures
            res == (Depender { number, test: *test, paired: false }),
    {
        Depender { number, test: *test, paired: false }
    }

    /// An image that is one of a pair.  `None` unless there are two images
    /// in all.
    pub fn pair(total_image: usize, my_image: usize, deps: &DepTest) -> (res: Option<Depender>)
        ensures
            total_image == 2 ==> res == Some(Depender { number: my_image, test: *deps, paired: true }),
            total_image != 2 ==> res is None,
    {
        if total_image != 2 {
            return None;
        }
        Some(Depender { number: my_image, test: *deps, paired: true })
    }

    /// Generate a version for this particular image.  The slot indicates
    /// which slot this is being put in.
    pub fn my_version(&self, offset: usize, slot: usize) -> (res: ImageVersion)
        requires
            self.wf(),
            slot <= 1,
        ensures
            res == self.spec_version(slot),
    {
        let slot: usize = if self.test.downgrade {
            1 - slot
        } else {
            slot
        };
        new_synthetic(self.number as u8, slot as u8, 0)
    }

    /// Return the image ID of the other version.
    pub fn other_id(&self) -> (res: u8)
        requires
            self.wf(),
        ensures
            res == self.spec_other_id(),
    {
        if self.paired {
            (1 - self.number) as u8
        } else {
            0
        }
    }

    /// Return dependencies for this image/slot combination.
    pub fn my_deps(&self, offset: usize, slot: usize) -> (res: Vec<ImageVersion>)
        requires
            self.wf(),
            slot <= 1,
        ensures
            res@ == self.spec_deps(slot),
    {
        let mut res: Vec<ImageVersion> = Vec::new();
        // For now, don't put any dependencies in slot zero.
        if self.paired && slot != 0 {
            match self.test.depends[self.number] {
                DepType::Nothing => {},
                DepType::NoUpgrade => {},
                DepType::Correct => {
                    res.push(new_synthetic(self.other_id(), slot as u8, 0));
                },
                DepType::OldCorrect => {
                    res.push(new_synthetic(self.other_id(), 0, 0));
                },
                DepType::Newer => {
                    res.push(new_synthetic(self.other_id(), slot as u8, 1));
                },
            }
        }
        assert(res@ =~= self.spec_deps(slot));
        res
    }
}

} // verus!
