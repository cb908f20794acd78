use vstd::prelude::*;
use vstd::string::StrSliceExecFns;
use vstd::string::StringExecFns;

verus! {

/// The text `s` with each space turned into an underscore and each comma dropped.
pub open spec fn underscored(s: Seq<char>) -> Seq<char>
    decreases s.len(),
{
    if s.len() == 0 {
        Seq::empty()
    } else {
        let rest = underscored(s.drop_last());
        let c = s.last();
        if c == ' ' {
            rest.push('_')
        } else if c == ',' {
            rest
        } else {
            rest.push(c)
        }
    }
}

/// What `str::to_lowercase` makes of a text.
pub uninterp spec fn lower_of(s: Seq<char>) -> Seq<char>;

/// The control name that a device's human-readable control label maps to.
pub open spec fn ctrl_name_of(s: Seq<char>) -> Seq<char> {
    lower_of(underscored(s))
}

/// Relies on `str::to_lowercase`: the result depends on the characters alone,
/// and an empty text stays empty.
#[verifier::external_body]
fn lowercase(s: &str) -> (r: String)
    ensures
        r@ == lower_of(s@),
        s@.len() == 0 ==> r@.len() == 0,
{
    s.to_lowercase()
}

/// Spaces become underscores and commas are dropped.
pub fn underscore(text: &str) -> (r: String)
    ensures
        r@ == underscored(text@),
{
    let n = text.unicode_len();
    let mut out = String::new();
    let mut i: usize = 0;
    assert(text@.subrange(0, 0) =~= Seq::<char>::empty());
    while i < n
        invariant
            n == text@.len(),
            i <= n,
            out@ == underscored(text@.subrange(0, i as int)),
        decreases n - i,
    {
        let c = text.get_char(i);
        let ghost pre = text@.subrange(0, i as int);
        assert(text@.subrange(0, i + 1).drop_last() == pre);
        if c == ' ' {
            out.append("_");
            proof { reveal_strlit("_"); }
        } else if c == ',' {
        } else {
            let piece = text.substring_char(i, i + 1);
            out.append(piece);
        }
        i = i + 1;
    }
    assert(text@.subrange(0, n as int) == text@);
    out
}

/// Turning a control label into the snake-case name used to address it.
pub trait ToCtrlName {
    fn to_ctrl_name(&self) -> (r: String)
        ensures
            r@ == ctrl_name_of(self.label()),
    ;

    spec fn label(&self) -> Seq<char>;
}

impl ToCtrlName for str {
    open spec fn label(&self) -> Seq<char> {
        self@
    }

    fn to_ctrl_name(&self) -> (r: String) {
        let u = underscore(self);
        lowercase(u.as_str())
    }
}

impl ToCtrlName for String {
    open spec fn label(&self) -> Seq<char> {
        self@
    }

    fn to_ctrl_name(&self) -> (r: String) {
        let u = underscore(self.as_str());
        lowercase(u.as_str())
    }
}

} // verus!
