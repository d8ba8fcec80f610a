//! What is found out before the mount is made.

use crate::config::Config;
use crate::config::FuseOptions;
use crate::startup;
use crate::startup::DependencyProbe;
use crate::startup::MountOptionView;
use crate::text;
use vstd::prelude::*;

verus! {

/// Users may mount for others exactly where a line of the settings of FUSE says so, which
/// starts with the word itself; a comment does not.
pub proof fn a_line_lets_users_allow_others(content: Seq<char>, i: int)
    requires
        0 <= i < text::lines(content).len(),
    ensures
        text::trim(text::lines(content)[i]) == "user_allow_other"@
            ==> startup::users_may_allow_other(content),
        (forall|j: int|
            0 <= j < text::lines(content).len() ==> {
                let l = text::trim(#[trigger] text::lines(content)[j]);
                l.len() == 0 || l[0] == '#'
            }) ==> !startup::users_may_allow_other(content),
{
    reveal_strlit("user_allow_other");
    reveal_strlit("user_allow_other ");
    let word = "user_allow_other"@;
    let spaced = "user_allow_other "@;
    assert(word[0] == 'u');
    assert(spaced[0] == 'u');
    let ls = text::lines(content);
    if text::trim(ls[i]) == word {
        assert(startup::allows_other(ls[i]));
    }
    if forall|j: int|
        0 <= j < ls.len() ==> {
            let l = text::trim(#[trigger] ls[j]);
            l.len() == 0 || l[0] == '#'
        } {
        assert forall|j: int| 0 <= j < ls.len() implies !startup::allows_other(
            #[trigger] ls[j],
        ) by {
            let l = text::trim(ls[j]);
            if text::starts(l, spaced) {
                assert(l.subrange(0, spaced.len() as int)[0] == 'u');
            }
        }
    }
}

/// The mount may fail only where it is meant for others, a user makes it, and the settings can
/// be read and do not let users do so.
pub proof fn root_may_always_mount(c: Config, p: DependencyProbe)
    ensures
        p.root ==> !startup::mount_may_fail(c, p),
        p.fuse_conf is None ==> !startup::mount_may_fail(c, p),
        (c.fuse_options matches Some(o) && o.allow_other == Some(false))
            ==> !startup::mount_may_fail(c, p),
        !p.root && (c.fuse_options matches Some(o) ==> o.allow_other != Some(false)) ==> (
        p.fuse_conf matches Some(t) ==> startup::mount_may_fail(c, p)
            == !startup::users_may_allow_other(t@)),
{
}

/// An option of the mount is among those that are given.
pub open spec fn is_given(options: Seq<MountOptionView>, o: MountOptionView) -> bool {
    exists|i: int| 0 <= i < options.len() && #[trigger] options[i] == o
}

proof fn given_in_either(a: Seq<MountOptionView>, b: Seq<MountOptionView>, o: MountOptionView)
    ensures
        is_given(a + b, o) <==> is_given(a, o) || is_given(b, o),
{
    let all = a + b;
    if is_given(a, o) {
        let i = choose|i: int| 0 <= i < a.len() && #[trigger] a[i] == o;
        assert(all[i] == o);
    }
    if is_given(b, o) {
        let i = choose|i: int| 0 <= i < b.len() && #[trigger] b[i] == o;
        assert(all[a.len() + i] == o);
    }
    if is_given(all, o) {
        let i = choose|i: int| 0 <= i < all.len() && #[trigger] all[i] == o;
        if i < a.len() {
            assert(a[i] == o);
        } else {
            assert(b[i - a.len()] == o);
        }
    }
}

proof fn given_is_given(wanted: bool, p: MountOptionView, o: MountOptionView)
    ensures
        is_given(startup::given(wanted, p), o) <==> wanted && p == o,
{
    if wanted {
        assert(startup::given(wanted, p)[0] == p);
    }
}

/// The mount gets exactly the options that are set: it is read-only where that is set and
/// writable otherwise, and each switch counts only where it is on.
pub proof fn options_are_those_set(f: FuseOptions)
    ensures
        ({
            let all = startup::options_set(f);
            &&& is_given(all, MountOptionView::AutoUnmount) <==> f.auto_unmount == Some(true)
            &&& is_given(all, MountOptionView::AllowOther) <==> f.allow_other == Some(true)
            &&& is_given(all, MountOptionView::AllowRoot) <==> f.allow_root == Some(true)
            &&& is_given(all, MountOptionView::DefaultPermissions) <==> f.default_permissions
                == Some(true)
            &&& is_given(all, MountOptionView::ReadOnly) <==> f.ro == Some(true)
            &&& is_given(all, MountOptionView::ReadWrite) <==> f.ro != Some(true)
            &&& f.fsname matches Some(n) ==> is_given(all, MountOptionView::FsName(n@))
            &&& f.custom_options matches Some(c) ==> forall|i: int|
                0 <= i < c@.len() ==> is_given(all, MountOptionView::Custom((#[trigger] c@[i])@))
        }),
{
    one_option(f, MountOptionView::AutoUnmount);
    one_option(f, MountOptionView::AllowOther);
    one_option(f, MountOptionView::AllowRoot);
    one_option(f, MountOptionView::DefaultPermissions);
    one_option(f, MountOptionView::ReadOnly);
    one_option(f, MountOptionView::ReadWrite);
    if let Some(n) = f.fsname {
        one_option(f, MountOptionView::FsName(n@));
        let head = seq![MountOptionView::FsName(n@)];
        assert(head[0] == MountOptionView::FsName(n@));
        assert(is_given(head, MountOptionView::FsName(n@)));
    }
    if let Some(c) = f.custom_options {
        assert forall|i: int| 0 <= i < c@.len() implies is_given(
            startup::options_set(f),
            MountOptionView::Custom((#[trigger] c@[i])@),
        ) by {
            one_option(f, MountOptionView::Custom(c@[i]@));
            let own = startup::customs(text::views(c@));
            assert(own[i] == MountOptionView::Custom(c@[i]@));
            assert(is_given(own, MountOptionView::Custom(c@[i]@)));
        }
    }
}

proof fn one_option(f: FuseOptions, o: MountOptionView)
    ensures
        is_given(startup::options_set(f), o) <==> {
            ||| f.fsname matches Some(n) && is_given(seq![MountOptionView::FsName(n@)], o)
            ||| f.auto_unmount == Some(true) && o == MountOptionView::AutoUnmount
            ||| f.allow_other == Some(true) && o == MountOptionView::AllowOther
            ||| f.allow_root == Some(true) && o == MountOptionView::AllowRoot
            ||| f.default_permissions == Some(true) && o == MountOptionView::DefaultPermissions
            ||| f.ro == Some(true) && o == MountOptionView::ReadOnly
            ||| f.ro != Some(true) && o == MountOptionView::ReadWrite
            ||| f.nonempty == Some(true) && o == MountOptionView::Custom("nonempty"@)
            ||| f.custom_options matches Some(c) && is_given(
                startup::customs(text::views(c@)),
                o,
            )
        },
        forall|n: Seq<char>|
            is_given(#[trigger] seq![MountOptionView::FsName(n)], o) ==> o
                == MountOptionView::FsName(n),
        forall|v: Seq<Seq<char>>|
            is_given(#[trigger] startup::customs(v), o) ==> o is Custom,
{
    let s0 = match f.fsname {
        Some(n) => seq![MountOptionView::FsName(n@)],
        None => Seq::empty(),
    };
    let g1 = startup::given(f.auto_unmount == Some(true), MountOptionView::AutoUnmount);
    let g2 = startup::given(f.allow_other == Some(true), MountOptionView::AllowOther);
    let g3 = startup::given(f.allow_root == Some(true), MountOptionView::AllowRoot);
    let g4 = startup::given(
        f.default_permissions == Some(true),
        MountOptionView::DefaultPermissions,
    );
    let way = if f.ro == Some(true) {
        MountOptionView::ReadOnly
    } else {
        MountOptionView::ReadWrite
    };
    let g5 = startup::given(true, way);
    let g6 = startup::given(f.nonempty == Some(true), MountOptionView::Custom("nonempty"@));
    let g7 = match f.custom_options {
        Some(c) => startup::customs(text::views(c@)),
        None => Seq::empty(),
    };
    given_in_either(s0, g1, o);
    given_in_either(s0 + g1, g2, o);
    given_in_either(s0 + g1 + g2, g3, o);
    given_in_either(s0 + g1 + g2 + g3, g4, o);
    given_in_either(s0 + g1 + g2 + g3 + g4, g5, o);
    given_in_either(s0 + g1 + g2 + g3 + g4 + g5, g6, o);
    given_in_either(s0 + g1 + g2 + g3 + g4 + g5 + g6, g7, o);
    given_is_given(f.auto_unmount == Some(true), MountOptionView::AutoUnmount, o);
    given_is_given(f.allow_other == Some(true), MountOptionView::AllowOther, o);
    given_is_given(f.allow_root == Some(true), MountOptionView::AllowRoot, o);
    given_is_given(
        f.default_permissions == Some(true),
        MountOptionView::DefaultPermissions,
        o,
    );
    given_is_given(true, way, o);
    given_is_given(f.nonempty == Some(true), MountOptionView::Custom("nonempty"@), o);
    assert(startup::options_set(f) == s0 + g1 + g2 + g3 + g4 + g5 + g6 + g7);
}

} // verus!
