//! What is put on a VM's own disk before it boots for the first time, and what it
//! is for there.

use vstd::prelude::*;

use crate::net::cidr::net_text;
use crate::storage::laws::no_slash;
use crate::text;
use crate::text::path_joined;
use crate::vmm::setup::{
    components, dashes_escaped, escaped_path, first_file, mount_path_of, mount_seed, mount_unit_text,
    pg_hba_text, pg_seed, seed_of, seed_steps_of, SeedView,
};
use crate::vmm::talk::stands_in;
use crate::vmm::vm::VmInstance;

verus! {

/// Something is put on a VM's disk exactly if it has a PostgreSQL image or a
/// volume to mount. It goes on that VM's own disk, which is mounted in the VM's
/// directory for it and unmounted again.
pub proof fn law_seeding_goes_on_the_vms_own_disk(i: VmInstance)
    ensures
        seed_of(i) is Some <==> i.vm_config.image@ == "postgres-16"@ || (
        i.vm_config.block_storage is Some && i.vm_config.block_storage->0.mount_path@.len() > 0),
        seed_of(i) is Some ==> ({
            let plan = seed_of(i)->0;
            let n = plan.mount.len() as int;
            &&& plan.mount_point == path_joined(i.work_dir@, "seed.mnt"@)
            &&& n >= 3
            &&& plan.mount[0] == "mount"@
            &&& plan.mount[n - 2] == i.overlay_disk@
            &&& plan.mount[n - 1] == plan.mount_point
            &&& plan.umount.len() == 2
            &&& plan.umount[0] == "umount"@
            &&& plan.umount[1] == plan.mount_point
            &&& plan.steps == seed_steps_of(i, plan.mount_point)
        }),
{
}

/// A PostgreSQL VM with a network lets passwords in from its project's subnet:
/// the rule is written where PostgreSQL reads it, and names that subnet.
pub proof fn law_postgres_lets_its_project_in(i: VmInstance, mount_point: Seq<char>)
    requires
        i.net is Some,
    ensures
        ({
            let steps = pg_seed(i, mount_point);
            let dir = path_joined(mount_point, "upper/etc/postgresql/16/main/pg_hba.d"@);
            let rule = "host all all "@ + net_text(i.net->0.subnet) + " scram-sha-256\n"@;
            &&& steps.len() == 2
            &&& steps[0] == (SeedView::MakeDir { path: dir })
            &&& steps[1] is Write
            &&& steps[1]->Write_path == path_joined(dir, "00-tikovm.conf"@)
            &&& steps[1]->contents.skip(steps[1]->contents.len() - rule.len()) == rule
            &&& forall|k: int|
                0 <= k <= steps[1]->contents.len() - rule.len() && (k == 0
                    || steps[1]->contents[k - 1] == '\n') ==> k == steps[1]->contents.len()
                    - rule.len() || #[trigger] steps[1]->contents[k] == '#'
        }),
{
    let steps = pg_seed(i, mount_point);
    let contents = pg_hba_text(i.net->0.subnet);
    let rule = "host all all "@ + net_text(i.net->0.subnet) + " scram-sha-256\n"@;
    reveal_strlit("# Seeded by hostd at VM creation: password auth only from the\n# VM's project subnet (the host's bridge IP + sibling VMs).\nhost all all ");
    reveal_strlit("host all all ");
    assert(steps[1]->contents == contents);
    assert(contents.skip(contents.len() - rule.len()) =~= rule);
}

/// A volume that is to be mounted is mounted where it was asked for: a unit is
/// written for it under the name that systemd demands, says which file system,
/// by the label that it was formatted with, goes where; and it is wanted at boot,
/// by a link that leads back to it.
pub proof fn law_volume_is_mounted_where_asked(mount_path: Seq<char>, mount_point: Seq<char>)
    ensures
        ({
            let steps = mount_seed(mount_path, mount_point);
            let unit = escaped_path(mount_path) + ".mount"@;
            let dir = path_joined(mount_point, "upper/etc/systemd/system"@);
            let wants = path_joined(dir, "multi-user.target.wants"@);
            &&& steps.len() == 3
            &&& steps[0] == (SeedView::MakeDir { path: wants })
            &&& steps[1] is Write
            &&& steps[1]->Write_path == path_joined(dir, unit)
            &&& steps[2] == (SeedView::Symlink {
                target: "../"@ + unit,
                path: path_joined(wants, unit),
            })
            &&& stands_in("\nWhere="@ + mount_path + "\n"@, steps[1]->contents)
            &&& stands_in("\nWhat=/dev/disk/by-label/tikovm-data\n"@, steps[1]->contents)
            &&& stands_in("\nType=ext4\n"@, steps[1]->contents)
            &&& stands_in("\nWantedBy=multi-user.target\n"@, steps[1]->contents)
        }),
{
    reveal(stands_in);
    let contents = mount_unit_text(mount_path);
    let head =
        "# Seeded by hostd at VM creation: mounts the VM's dedicated\n# block volume (the /dev/vdc drive, ext4-formatted by hostd).\n[Unit]\nDescription=tikovm block storage volume\nBefore=local-fs.target\n\n[Mount]\nWhat=/dev/disk/by-label/tikovm-data\nWhere="@;
    let end = "\nType=ext4\n\n[Install]\nWantedBy=multi-user.target\n"@;
    reveal_strlit("# Seeded by hostd at VM creation: mounts the VM's dedicated\n# block volume (the /dev/vdc drive, ext4-formatted by hostd).\n[Unit]\nDescription=tikovm block storage volume\nBefore=local-fs.target\n\n[Mount]\nWhat=/dev/disk/by-label/tikovm-data\nWhere=");
    reveal_strlit("\nType=ext4\n\n[Install]\nWantedBy=multi-user.target\n");
    reveal_strlit("\nWhere=");
    reveal_strlit("\n");
    reveal_strlit("\nWhat=/dev/disk/by-label/tikovm-data\n");
    reveal_strlit("\nType=ext4\n");
    reveal_strlit("\nWantedBy=multi-user.target\n");
    assert(contents =~= head + mount_path + end);
    let at = head.len() - 7;
    let whole = "\nWhere="@ + mount_path + "\n"@;
    assert(contents.subrange(at, at + whole.len()) =~= whole);
    let what = "\nWhat=/dev/disk/by-label/tikovm-data\n"@;
    let from = head.len() - 6 - what.len();
    assert(contents.subrange(from, from + what.len()) =~= what);
    let kind = "\nType=ext4\n"@;
    let behind = (head.len() + mount_path.len()) as int;
    assert(contents.subrange(behind, behind + kind.len()) =~= kind);
    let wanted = "\nWantedBy=multi-user.target\n"@;
    let last = contents.len() - wanted.len();
    assert(contents.subrange(last, last + wanted.len()) =~= wanted);
}

/// Both kinds of files are put on the disk of a VM that needs both, PostgreSQL's
/// first; without a network a PostgreSQL VM fails and nothing follows.
pub proof fn law_what_is_seeded(i: VmInstance, mount_point: Seq<char>)
    ensures
        ({
            let steps = seed_steps_of(i, mount_point);
            let pg = i.vm_config.image@ == "postgres-16"@;
            let volume = i.vm_config.block_storage is Some
                && i.vm_config.block_storage->0.mount_path@.len() > 0;
            let mount = mount_seed(i.vm_config.block_storage->0.mount_path@, mount_point);
            &&& pg && i.net is None ==> steps.len() == 1 && steps[0] is FailNet
            &&& pg && i.net is Some && volume ==> steps == pg_seed(i, mount_point) + mount
            &&& pg && i.net is Some && !volume ==> steps == pg_seed(i, mount_point)
            &&& !pg && volume ==> steps == mount
            &&& !pg && !volume ==> steps.len() == 0
        }),
{
    let steps = seed_steps_of(i, mount_point);
    if i.vm_config.image@ != "postgres-16"@ {
        if let Some(path) = mount_path_of(i.vm_config) {
            assert(steps =~= mount_seed(path, mount_point));
        }
    }
}

// ---------------------------------------------------------------------------
// Unit names
// ---------------------------------------------------------------------------

/// A path is made of what stands between its slashes; slashes at its start, or
/// doubled ones, add nothing.
pub proof fn law_components_stand_between_slashes(c: Seq<char>, rest: Seq<char>)
    requires
        no_slash(c),
    ensures
        c.len() > 0 ==> components(c + seq!['/'] + rest) == seq![c] + components(rest),
        c.len() > 0 ==> components(c) == seq![c],
        components(seq!['/'] + rest) == components(rest),
        components(Seq::<char>::empty()) == Seq::<Seq<char>>::empty(),
{
    let s = c + seq!['/'] + rest;
    let n = c.len() as int;
    assert(s[n] == '/');
    assert forall|j: int| 0 <= j < n implies s[j] != '/' by {
        assert(s[j] == c[j]);
    }
    text::lemma_char_index_at(s, '/', n);
    assert(s.take(n) =~= c);
    assert(s.skip(n + 1) =~= rest);
    text::lemma_char_index(c, '/');
    let t = seq!['/'] + rest;
    text::lemma_char_index_at(t, '/', 0);
    assert(t.skip(1) =~= rest);
    text::lemma_char_index(Seq::<char>::empty(), '/');
}

/// Dashes are escaped one by one, and nothing else is.
pub proof fn law_dashes_are_escaped(a: Seq<char>, b: Seq<char>)
    ensures
        dashes_escaped(a + b) == dashes_escaped(a) + dashes_escaped(b),
        dashes_escaped(seq!['-']) == "\\x2d"@,
        (forall|i: int| 0 <= i < a.len() ==> #[trigger] a[i] != '-') ==> dashes_escaped(a) == a,
        forall|i: int| 0 <= i < dashes_escaped(a).len() ==> #[trigger] dashes_escaped(a)[i] != '-',
        no_slash(a) ==> no_slash(dashes_escaped(a)),
    decreases a.len() + b.len(),
{
    reveal_strlit("\\x2d");
    let one = seq!['-'];
    assert(one.drop_last() =~= Seq::<char>::empty());
    assert(dashes_escaped(Seq::<char>::empty()) =~= Seq::<char>::empty());
    assert(dashes_escaped(one) =~= "\\x2d"@);
    if b.len() > 0 {
        law_dashes_are_escaped(a, b.drop_last());
        assert((a + b).drop_last() =~= a + b.drop_last());
        assert((a + b).last() == b.last());
        assert(dashes_escaped(a + b) =~= dashes_escaped(a) + dashes_escaped(b));
    } else {
        assert(a + b =~= a);
        assert(dashes_escaped(a) + dashes_escaped(b) =~= dashes_escaped(a));
        if a.len() > 0 {
            law_dashes_are_escaped(a.drop_last(), b);
            if forall|i: int| 0 <= i < a.len() ==> #[trigger] a[i] != '-' {
                assert forall|i: int| 0 <= i < a.len() - 1 implies #[trigger] a.drop_last()[i]
                    != '-' by {
                    assert(a.drop_last()[i] == a[i]);
                }
                assert(a.last() == a[a.len() - 1]);
                assert(dashes_escaped(a) =~= a);
            }
            if no_slash(a) {
                assert forall|i: int| 0 <= i < a.len() - 1 implies #[trigger] a.drop_last()[i]
                    != '/' by {
                    assert(a.drop_last()[i] == a[i]);
                }
                assert(a.last() == a[a.len() - 1]);
            }
        }
    }
}

/// The unit of a path is called after its components, joined by dashes; a dot at
/// the very start is escaped, and the root is a dash.
pub proof fn law_units_are_called_after_paths(c: Seq<char>, d: Seq<char>)
    requires
        c.len() > 0 && no_slash(c),
        d.len() > 0 && no_slash(d),
    ensures
        escaped_path(seq!['/']) == "-"@,
        c[0] != '.' ==> escaped_path(seq!['/'] + c) == dashes_escaped(c),
        c[0] != '.' ==> escaped_path(seq!['/'] + c + seq!['/'] + d) == dashes_escaped(c) + "-"@
            + dashes_escaped(d),
        c[0] == '.' ==> escaped_path(seq!['/'] + c) == "\\x2e"@ + dashes_escaped(c).skip(1),
{
    reveal_strlit("-");
    reveal_strlit(".");
    reveal_strlit("\\x2d");
    let none = Seq::<char>::empty();
    law_components_stand_between_slashes(c, none);
    law_components_stand_between_slashes(c, d);
    law_components_stand_between_slashes(d, none);
    law_components_stand_between_slashes(c, c);
    assert(seq!['/'] + none =~= seq!['/']);
    let one = seq!['/'] + c;
    assert(components(one) == seq![c]);
    let two = seq!['/'] + c + seq!['/'] + d;
    assert(two =~= seq!['/'] + (c + seq!['/'] + d));
    law_components_stand_between_slashes(c, c + seq!['/'] + d);
    assert(components(two) =~= seq![c, d]);
    let e = dashes_escaped(c);
    let f = dashes_escaped(d);
    law_dashes_are_escaped(seq![c[0]], c.drop_first());
    assert(seq![c[0]] + c.drop_first() =~= c);
    lemma_first_escaped(c[0]);
    assert(e[0] == if c[0] == '-' {
        '\\'
    } else {
        c[0]
    });
    assert(crate::vmm::setup::all_escaped(seq![c]) =~= seq![e]);
    assert(crate::vmm::setup::all_escaped(seq![c, d]) =~= seq![e, f]);
    assert(seq![e, f].drop_last() =~= seq![e]);
    assert(text::joined(seq![e], "-"@) == e);
    assert(text::joined(seq![e, f], "-"@) == e + "-"@ + f);
    assert((e + "-"@ + f)[0] == e[0]);
    assert(e.take(1)[0] == e[0]);
    if c[0] == '.' {
        assert(e.take(1) =~= "."@);
    } else {
        assert((e + "-"@ + f).take(1)[0] == e[0]);
        assert("."@[0] == '.');
    }
}

proof fn lemma_first_escaped(c: char)
    ensures
        dashes_escaped(seq![c]) == if c == '-' {
            "\\x2d"@
        } else {
            seq![c]
        },
{
    reveal_strlit("\\x2d");
    let one = seq![c];
    assert(one.drop_last() =~= Seq::<char>::empty());
    assert(dashes_escaped(Seq::<char>::empty()) =~= Seq::<char>::empty());
    assert(one.last() == c);
    assert(dashes_escaped(one) =~= if c == '-' {
        "\\x2d"@
    } else {
        seq![c]
    });
}

// ---------------------------------------------------------------------------
// Programs
// ---------------------------------------------------------------------------

/// A program is taken from the first directory of the search path that holds it.
pub proof fn law_first_directory_counts(
    dirs: Seq<Seq<char>>,
    is_file: Seq<bool>,
    binary: Seq<char>,
    at: int,
)
    requires
        dirs.len() == is_file.len(),
        0 <= at <= dirs.len(),
        at < dirs.len() ==> is_file[at],
        forall|k: int| 0 <= k < at ==> !(#[trigger] is_file[k]),
    ensures
        first_file(dirs, is_file, binary) == if at < dirs.len() {
            Some(path_joined(dirs[at], binary))
        } else {
            None
        },
    decreases dirs.len(),
{
    if dirs.len() > 0 && at > 0 {
        assert(!is_file[0]);
        let d = dirs.skip(1);
        let f = is_file.skip(1);
        assert forall|k: int| 0 <= k < at - 1 implies !(#[trigger] f[k]) by {
            assert(f[k] == is_file[k + 1]);
        }
        if at < dirs.len() {
            assert(f[at - 1] == is_file[at]);
            assert(d[at - 1] == dirs[at]);
        }
        law_first_directory_counts(d, f, binary, at - 1);
    }
}

} // verus!
