//! Classification of a mapped object's path into a well-known DSO identity.
//!
//! `DsoKey::detect` is a pure function of the path bytes and the record's misc
//! flags. The rules are ordered and the first match wins; in particular the
//! bracket-prefix rule is applied before the basename is extracted, so that
//! kernel-module tokens such as `[snd-seq-device]` are preserved verbatim.

use vstd::prelude::*;
use vstd::slice::slice_to_vec;
use vstd::string::StringExecFns;
use crate::perf_event_raw::{
    PERF_RECORD_MISC_CPUMODE_MASK, PERF_RECORD_MISC_GUEST_KERNEL, PERF_RECORD_MISC_GUEST_USER,
    PERF_RECORD_MISC_KERNEL, PERF_RECORD_MISC_USER,
};

verus! {

/// Identity of a mapped object.
#[derive(Clone, PartialEq, Eq, Hash, Debug)]
pub enum DsoKey {
    Kernel,
    GuestKernel,
    Vdso32,
    VdsoX32,
    Vdso64,
    Vsyscall,
    KernelModule(String),
    User(String, Vec<u8>),
}

/// Mathematical counterpart of `DsoKey`: names as character sequences, paths
/// as byte sequences.
pub enum DsoKeyView {
    Kernel,
    GuestKernel,
    Vdso32,
    VdsoX32,
    Vdso64,
    Vsyscall,
    KernelModule { name: Seq<char> },
    User { name: Seq<char>, path: Seq<u8> },
}

impl View for DsoKey {
    type V = DsoKeyView;

    open spec fn view(&self) -> DsoKeyView {
        match self {
            DsoKey::Kernel => DsoKeyView::Kernel,
            DsoKey::GuestKernel => DsoKeyView::GuestKernel,
            DsoKey::Vdso32 => DsoKeyView::Vdso32,
            DsoKey::VdsoX32 => DsoKeyView::VdsoX32,
            DsoKey::Vdso64 => DsoKeyView::Vdso64,
            DsoKey::Vsyscall => DsoKeyView::Vsyscall,
            DsoKey::KernelModule(name) => DsoKeyView::KernelModule { name: name@ },
            DsoKey::User(name, path) => DsoKeyView::User { name: name@, path: path@ },
        }
    }
}

impl DeepView for DsoKey {
    type V = DsoKeyView;

    open spec fn deep_view(&self) -> DsoKeyView {
        self.view()
    }
}

/// What `String::from_utf8_lossy` returns for the given bytes: a function of
/// the bytes alone.
pub uninterp spec fn utf8_lossy(b: Seq<u8>) -> Seq<char>;

/// Relies on `String::from_utf8_lossy`: the result depends on the bytes alone,
/// and valid UTF-8 input decodes exactly.
#[verifier::external_body]
fn utf8_lossy_string(b: &[u8]) -> (r: String)
    ensures
        r@ == utf8_lossy(b@),
        vstd::utf8::valid_utf8(b@) ==> r@ == vstd::utf8::decode_utf8(b@),
{
    String::from_utf8_lossy(b).into_owned()
}

pub open spec fn bytes_anon() -> Seq<u8> {
    seq![47u8, 47u8, 97u8, 110u8, 111u8, 110u8]
}

pub open spec fn bytes_stack() -> Seq<u8> {
    seq![91u8, 115u8, 116u8, 97u8, 99u8, 107u8, 93u8]
}

pub open spec fn bytes_heap() -> Seq<u8> {
    seq![91u8, 104u8, 101u8, 97u8, 112u8, 93u8]
}

pub open spec fn bytes_vvar() -> Seq<u8> {
    seq![91u8, 118u8, 118u8, 97u8, 114u8, 93u8]
}

pub open spec fn bytes_kernel_kallsyms() -> Seq<u8> {
    seq![
        91u8, 107u8, 101u8, 114u8, 110u8, 101u8, 108u8, 46u8, 107u8, 97u8, 108u8, 108u8,
        115u8, 121u8, 109u8, 115u8, 93u8,
    ]
}

pub open spec fn bytes_guest_kallsyms() -> Seq<u8> {
    seq![
        91u8, 103u8, 117u8, 101u8, 115u8, 116u8, 46u8, 107u8, 101u8, 114u8, 110u8, 101u8,
        108u8, 46u8, 107u8, 97u8, 108u8, 108u8, 115u8, 121u8, 109u8, 115u8,
    ]
}

pub open spec fn bytes_vdso32() -> Seq<u8> {
    seq![91u8, 118u8, 100u8, 115u8, 111u8, 51u8, 50u8, 93u8]
}

pub open spec fn bytes_vdsox32() -> Seq<u8> {
    seq![91u8, 118u8, 100u8, 115u8, 111u8, 120u8, 51u8, 50u8, 93u8]
}

pub open spec fn bytes_vdso() -> Seq<u8> {
    seq![91u8, 118u8, 100u8, 115u8, 111u8, 93u8]
}

pub open spec fn bytes_vsyscall() -> Seq<u8> {
    seq![91u8, 118u8, 115u8, 121u8, 115u8, 99u8, 97u8, 108u8, 108u8, 93u8]
}

pub open spec fn bytes_lbracket() -> Seq<u8> {
    seq![91u8]
}

pub open spec fn bytes_ko() -> Seq<u8> {
    seq![46u8, 107u8, 111u8]
}

pub open spec fn has_prefix(s: Seq<u8>, p: Seq<u8>) -> bool {
    p.len() <= s.len() && s.subrange(0, p.len() as int) == p
}

pub open spec fn has_suffix(s: Seq<u8>, p: Seq<u8>) -> bool {
    p.len() <= s.len() && s.subrange(s.len() - p.len(), s.len() as int) == p
}

/// The bytes after the last `/` of `p`, or all of `p` when it has none.
pub open spec fn basename(p: Seq<u8>) -> Seq<u8>
    decreases p.len(),
{
    if p.len() == 0 {
        p
    } else if p[p.len() - 1] == 47u8 {
        Seq::empty()
    } else {
        basename(p.drop_last()).push(p[p.len() - 1])
    }
}

/// The classification rules, in order; the first match wins.
pub open spec fn spec_detect(path: Seq<u8>, misc: u16) -> Option<DsoKeyView> {
    if path == bytes_anon() || path == bytes_stack() || path == bytes_heap() || path
        == bytes_vvar() {
        None
    } else {
        let cpumode = misc & PERF_RECORD_MISC_CPUMODE_MASK;
        if has_prefix(path, bytes_kernel_kallsyms()) {
            if cpumode == PERF_RECORD_MISC_GUEST_KERNEL {
                Some(DsoKeyView::GuestKernel)
            } else {
                Some(DsoKeyView::Kernel)
            }
        } else if has_prefix(path, bytes_guest_kallsyms()) {
            Some(DsoKeyView::GuestKernel)
        } else if path == bytes_vdso32() {
            Some(DsoKeyView::Vdso32)
        } else if path == bytes_vdsox32() {
            Some(DsoKeyView::VdsoX32)
        } else if path == bytes_vdso() {
            Some(DsoKeyView::Vdso64)
        } else if path == bytes_vsyscall() {
            Some(DsoKeyView::Vsyscall)
        } else if (cpumode == PERF_RECORD_MISC_KERNEL || cpumode == PERF_RECORD_MISC_GUEST_KERNEL)
            && has_prefix(path, bytes_lbracket()) {
            Some(DsoKeyView::KernelModule { name: utf8_lossy(path) })
        } else {
            let filename = basename(path);
            if (cpumode == PERF_RECORD_MISC_KERNEL || cpumode == PERF_RECORD_MISC_GUEST_KERNEL)
                && has_suffix(filename, bytes_ko()) {
                Some(
                    DsoKeyView::KernelModule {
                        name: "["@ + utf8_lossy(
                            filename.subrange(0, filename.len() - bytes_ko().len()),
                        ) + "]"@,
                    },
                )
            } else if cpumode == PERF_RECORD_MISC_KERNEL {
                Some(DsoKeyView::Kernel)
            } else if cpumode == PERF_RECORD_MISC_GUEST_KERNEL {
                Some(DsoKeyView::GuestKernel)
            } else if cpumode == PERF_RECORD_MISC_USER || cpumode == PERF_RECORD_MISC_GUEST_USER {
                Some(DsoKeyView::User { name: utf8_lossy(filename), path: path })
            } else {
                None
            }
        }
    }
}

fn bytes_eq(a: &[u8], b: &[u8]) -> (r: bool)
    ensures
        r == (a@ == b@),
{
    if a.len() != b.len() {
        proof {
            if a@ == b@ {
                assert(a@.len() == b@.len());
            }
        }
        return false;
    }
    let n = a.len();
    let mut i: usize = 0;
    while i < n
        invariant
            n == a@.len(),
            a@.len() == b@.len(),
            i <= n,
            forall|j: int| 0 <= j < i ==> a@[j] == b@[j],
        decreases n - i,
    {
        if a[i] != b[i] {
            return false;
        }
        i += 1;
    }
    proof {
        assert(a@ =~= b@);
    }
    true
}

fn starts_with_bytes(a: &[u8], p: &[u8]) -> (r: bool)
    ensures
        r == has_prefix(a@, p@),
{
    if p.len() > a.len() {
        return false;
    }
    bytes_eq(&a[0..p.len()], p)
}

fn ends_with_bytes(a: &[u8], p: &[u8]) -> (r: bool)
    ensures
        r == has_suffix(a@, p@),
{
    if p.len() > a.len() {
        return false;
    }
    bytes_eq(&a[a.len() - p.len()..a.len()], p)
}

fn vec_anon() -> (v: Vec<u8>)
    ensures
        v@ == bytes_anon(),
{
    let v: Vec<u8> = vec![47u8, 47u8, 97u8, 110u8, 111u8, 110u8];
    proof {
        assert(v@ =~= bytes_anon());
    }
    v
}

fn vec_stack() -> (v: Vec<u8>)
    ensures
        v@ == bytes_stack(),
{
    let v: Vec<u8> = vec![91u8, 115u8, 116u8, 97u8, 99u8, 107u8, 93u8];
    proof {
        assert(v@ =~= bytes_stack());
    }
    v
}

fn vec_heap() -> (v: Vec<u8>)
    ensures
        v@ == bytes_heap(),
{
    let v: Vec<u8> = vec![91u8, 104u8, 101u8, 97u8, 112u8, 93u8];
    proof {
        assert(v@ =~= bytes_heap());
    }
    v
}

fn vec_vvar() -> (v: Vec<u8>)
    ensures
        v@ == bytes_vvar(),
{
    let v: Vec<u8> = vec![91u8, 118u8, 118u8, 97u8, 114u8, 93u8];
    proof {
        assert(v@ =~= bytes_vvar());
    }
    v
}

fn vec_kernel_kallsyms() -> (v: Vec<u8>)
    ensures
        v@ == bytes_kernel_kallsyms(),
{
    let v: Vec<u8> = vec![
        91u8, 107u8, 101u8, 114u8, 110u8, 101u8, 108u8, 46u8, 107u8, 97u8, 108u8, 108u8,
        115u8, 121u8, 109u8, 115u8, 93u8,
    ];
    proof {
        assert(v@ =~= bytes_kernel_kallsyms());
    }
    v
}

fn vec_guest_kallsyms() -> (v: Vec<u8>)
    ensures
        v@ == bytes_guest_kallsyms(),
{
    let v: Vec<u8> = vec![
        91u8, 103u8, 117u8, 101u8, 115u8, 116u8, 46u8, 107u8, 101u8, 114u8, 110u8, 101u8,
        108u8, 46u8, 107u8, 97u8, 108u8, 108u8, 115u8, 121u8, 109u8, 115u8,
    ];
    proof {
        assert(v@ =~= bytes_guest_kallsyms());
    }
    v
}

fn vec_vdso32() -> (v: Vec<u8>)
    ensures
        v@ == bytes_vdso32(),
{
    let v: Vec<u8> = vec![91u8, 118u8, 100u8, 115u8, 111u8, 51u8, 50u8, 93u8];
    proof {
        assert(v@ =~= bytes_vdso32());
    }
    v
}

fn vec_vdsox32() -> (v: Vec<u8>)
    ensures
        v@ == bytes_vdsox32(),
{
    let v: Vec<u8> = vec![91u8, 118u8, 100u8, 115u8, 111u8, 120u8, 51u8, 50u8, 93u8];
    proof {
        assert(v@ =~= bytes_vdsox32());
    }
    v
}

fn vec_vdso() -> (v: Vec<u8>)
    ensures
        v@ == bytes_vdso(),
{
    let v: Vec<u8> = vec![91u8, 118u8, 100u8, 115u8, 111u8, 93u8];
    proof {
        assert(v@ =~= bytes_vdso());
    }
    v
}

fn vec_vsyscall() -> (v: Vec<u8>)
    ensures
        v@ == bytes_vsyscall(),
{
    let v: Vec<u8> = vec![91u8, 118u8, 115u8, 121u8, 115u8, 99u8, 97u8, 108u8, 108u8, 93u8];
    proof {
        assert(v@ =~= bytes_vsyscall());
    }
    v
}

fn vec_ko() -> (v: Vec<u8>)
    ensures
        v@ == bytes_ko(),
{
    let v: Vec<u8> = vec![46u8, 107u8, 111u8];
    proof {
        assert(v@ =~= bytes_ko());
    }
    v
}

proof fn lemma_basename_no_slash(p: Seq<u8>)
    requires
        forall|j: int| 0 <= j < p.len() ==> p[j] != 47u8,
    ensures
        basename(p) == p,
    decreases p.len(),
{
    if p.len() == 0 {
    } else {
        lemma_basename_no_slash(p.drop_last());
        assert(basename(p.drop_last()).push(p[p.len() - 1]) =~= p);
    }
}

proof fn lemma_basename_after_slash(p: Seq<u8>, k: int)
    requires
        0 <= k < p.len(),
        p[k] == 47u8,
        forall|j: int| k < j < p.len() ==> p[j] != 47u8,
    ensures
        basename(p) == p.subrange(k + 1, p.len() as int),
    decreases p.len(),
{
    if k == p.len() - 1 {
        assert(basename(p) =~= p.subrange(k + 1, p.len() as int));
    } else {
        let q = p.drop_last();
        lemma_basename_after_slash(q, k);
        assert(q.subrange(k + 1, q.len() as int).push(p[p.len() - 1]) =~= p.subrange(
            k + 1,
            p.len() as int,
        ));
    }
}

/// The byte range of `path` that `basename(path@)` denotes: the bytes after
/// the last `/`, or the whole slice.
fn basename_slice<'a>(path: &'a [u8]) -> (r: &'a [u8])
    ensures
        r@ == basename(path@),
{
    let n = path.len();
    let mut i: usize = n;
    while i > 0
        invariant
            i <= n,
            n == path@.len(),
            forall|j: int| i <= j < n ==> path@[j] != 47u8,
        decreases i,
    {
        if path[i - 1] == 47 {
            proof {
                lemma_basename_after_slash(path@, i - 1);
            }
            return &path[i..n];
        }
        i -= 1;
    }
    proof {
        lemma_basename_no_slash(path@);
    }
    path
}

/// The display name of each identity: the pseudo-path for the fixed variants,
/// the stored name for kernel modules and user binaries.
pub open spec fn dso_name_chars(k: DsoKeyView) -> Seq<char> {
    match k {
        DsoKeyView::Kernel => "[kernel.kallsyms]"@,
        DsoKeyView::GuestKernel => "[guest.kernel.kallsyms]"@,
        DsoKeyView::Vdso32 => "[vdso32]"@,
        DsoKeyView::VdsoX32 => "[vdsox32]"@,
        DsoKeyView::Vdso64 => "[vdso]"@,
        DsoKeyView::Vsyscall => "[vsyscall]"@,
        DsoKeyView::KernelModule { name } => name,
        DsoKeyView::User { name, path: _ } => name,
    }
}

/// The special pseudo-paths `//anon`, `[stack]`, `[heap]` and `[vvar]` are no
/// DSOs: the classifier returns `None` for them whatever the misc flags say.
pub proof fn lemma_special_paths_never_dso(misc: u16)
    ensures
        spec_detect(bytes_anon(), misc) is None,
        spec_detect(bytes_stack(), misc) is None,
        spec_detect(bytes_heap(), misc) is None,
        spec_detect(bytes_vvar(), misc) is None,
{
}

/// A path that starts with `[kernel.kallsyms]` is the kernel image, except
/// under the guest-kernel cpumode, where it is the guest kernel.
pub proof fn lemma_kallsyms_cpumode_override(path: Seq<u8>, misc: u16)
    requires
        has_prefix(path, bytes_kernel_kallsyms()),
    ensures
        misc & PERF_RECORD_MISC_CPUMODE_MASK == PERF_RECORD_MISC_GUEST_KERNEL ==> spec_detect(
            path,
            misc,
        ) == Some(DsoKeyView::GuestKernel),
        misc & PERF_RECORD_MISC_CPUMODE_MASK != PERF_RECORD_MISC_GUEST_KERNEL ==> spec_detect(
            path,
            misc,
        ) == Some(DsoKeyView::Kernel),
{
    assert(path.len() >= bytes_kernel_kallsyms().len());
    assert(path != bytes_anon());
    assert(path != bytes_stack());
    assert(path != bytes_heap());
    assert(path != bytes_vvar());
}

impl DsoKey {
    /// The human-readable name of this identity.
    pub fn name(&self) -> (r: &str)
        ensures
            r@ == dso_name_chars(self@),
    {
        match self {
            DsoKey::Kernel => "[kernel.kallsyms]",
            DsoKey::GuestKernel => "[guest.kernel.kallsyms]",
            DsoKey::Vdso32 => "[vdso32]",
            DsoKey::VdsoX32 => "[vdsox32]",
            DsoKey::Vdso64 => "[vdso]",
            DsoKey::Vsyscall => "[vsyscall]",
            DsoKey::KernelModule(name) => name.as_str(),
            DsoKey::User(name, _) => name.as_str(),
        }
    }

    /// Classify `path` under the given misc flags. Returns `None` when the
    /// mapping is no DSO (anonymous memory, stack, heap, vvar) or the cpumode
    /// names no known context.
    pub fn detect(path: &[u8], misc: u16) -> (r: Option<DsoKey>)
        ensures
            r.deep_view() == spec_detect(path@, misc),
    {
        let anon = vec_anon();
        let stack = vec_stack();
        let heap = vec_heap();
        let vvar = vec_vvar();
        if bytes_eq(path, anon.as_slice()) || bytes_eq(path, stack.as_slice()) || bytes_eq(
            path,
            heap.as_slice(),
        ) || bytes_eq(path, vvar.as_slice()) {
            return None;
        }
        let cpumode = misc & PERF_RECORD_MISC_CPUMODE_MASK;
        let kallsyms = vec_kernel_kallsyms();
        if starts_with_bytes(path, kallsyms.as_slice()) {
            return if cpumode == PERF_RECORD_MISC_GUEST_KERNEL {
                Some(DsoKey::GuestKernel)
            } else {
                Some(DsoKey::Kernel)
            };
        }
        let guest_kallsyms = vec_guest_kallsyms();
        if starts_with_bytes(path, guest_kallsyms.as_slice()) {
            return Some(DsoKey::GuestKernel);
        }
        let vdso32 = vec_vdso32();
        if bytes_eq(path, vdso32.as_slice()) {
            return Some(DsoKey::Vdso32);
        }
        let vdsox32 = vec_vdsox32();
        if bytes_eq(path, vdsox32.as_slice()) {
            return Some(DsoKey::VdsoX32);
        }
        let vdso = vec_vdso();
        if bytes_eq(path, vdso.as_slice()) {
            return Some(DsoKey::Vdso64);
        }
        let vsyscall = vec_vsyscall();
        if bytes_eq(path, vsyscall.as_slice()) {
            return Some(DsoKey::Vsyscall);
        }
        let is_kernel_mode = cpumode == PERF_RECORD_MISC_KERNEL || cpumode
            == PERF_RECORD_MISC_GUEST_KERNEL;
        if is_kernel_mode && path.len() >= 1 && {
            let b = path[0];
            b == 91
        } {
            proof {
                assert(path@.subrange(0, 1) =~= bytes_lbracket());
            }
            return Some(DsoKey::KernelModule(utf8_lossy_string(path)));
        }
        proof {
            if has_prefix(path@, bytes_lbracket()) {
                assert(path@[0] == bytes_lbracket()[0]);
            }
        }
        let filename = basename_slice(path);
        let ko = vec_ko();
        if is_kernel_mode && ends_with_bytes(filename, ko.as_slice()) {
            let stripped = &filename[0..filename.len() - 3];
            let inner = utf8_lossy_string(stripped);
            let mut name = String::from_str("[");
            name.append(inner.as_str());
            name.append("]");
            return Some(DsoKey::KernelModule(name));
        }
        if cpumode == PERF_RECORD_MISC_KERNEL {
            Some(DsoKey::Kernel)
        } else if cpumode == PERF_RECORD_MISC_GUEST_KERNEL {
            Some(DsoKey::GuestKernel)
        } else if cpumode == PERF_RECORD_MISC_USER || cpumode == PERF_RECORD_MISC_GUEST_USER {
            Some(DsoKey::User(utf8_lossy_string(filename), slice_to_vec(path)))
        } else {
            None
        }
    }
}

} // verus!
