//! AWE-Script interpreter core: the variable table and arithmetic.

use vstd::prelude::*;
use crate::table::find_free;

verus! {

pub const MAX_TOKENS: usize = 64;
pub const MAX_ENV_VARS: usize = 16;

#[derive(Debug, Clone, Copy, PartialEq, Eq, Structural)]
pub enum TokenType {
    Identifier,
    Number,
    Equals,
    StringLiteral,
    PrintKeyword,
}

#[derive(Debug, Clone, Copy)]
pub struct Token<'a> {
    pub token_type: TokenType,
    pub slice: &'a str,
}

#[derive(Debug, Clone, Copy, PartialEq, Eq, Structural)]
pub struct EnvVar {
    pub hash: u64,
    pub value: i64,
}

pub open spec fn var_is(o: Option<EnvVar>, hash: u64) -> bool {
    o matches Some(v) && v.hash == hash
}

pub open spec fn first_var(s: Seq<Option<EnvVar>>, hash: u64, i: int) -> bool {
    &&& 0 <= i < s.len()
    &&& var_is(s[i], hash)
    &&& forall|j: int| 0 <= j < i ==> !var_is(#[trigger] s[j], hash)
}

pub open spec fn has_var(s: Seq<Option<EnvVar>>, hash: u64) -> bool {
    exists|i: int| 0 <= i < s.len() && var_is(#[trigger] s[i], hash)
}

/// Truncating division, as Rust's `/` on integers.
pub open spec fn trunc_div(a: int, b: int) -> int {
    let q = abs_int(a) / abs_int(b);
    if (a >= 0) == (b >= 0) { q } else { -q }
}

pub open spec fn abs_int(a: int) -> int {
    if a >= 0 { a } else { -a }
}

proof fn lemma_quotient_shrinks(a: int, b: int)
    requires
        a >= 0,
        b >= 1,
    ensures
        0 <= a / b <= a,
        b >= 2 && a > 0 ==> a / b < a,
{
    assert(0 <= a / b <= a) by (nonlinear_arith)
        requires a >= 0, b >= 1;
    assert(b >= 2 && a > 0 ==> a / b < a) by (nonlinear_arith)
        requires a >= 0, b >= 1;
}

#[derive(Debug)]
pub struct ScriptInterpreter {
    env_vars: [Option<EnvVar>; MAX_ENV_VARS],
    var_count: usize,
}

impl ScriptInterpreter {
    pub closed spec fn wf(&self) -> bool {
        &&& self.var_count <= MAX_ENV_VARS
        &&& forall|i: int| 0 <= i < MAX_ENV_VARS ==> ((#[trigger] self.env_vars@[i]) is Some <==> i < self.var_count)
    }

    /// The variable slots.
    pub closed spec fn vars(&self) -> Seq<Option<EnvVar>> {
        self.env_vars@
    }

    pub fn new() -> (s: Self)
        ensures
            s.wf(),
            s.vars() == Seq::new(MAX_ENV_VARS as nat, |i: int| None::<EnvVar>),
    {
        let s = ScriptInterpreter { env_vars: [None; MAX_ENV_VARS], var_count: 0 };
        assert(s.vars() =~= Seq::new(MAX_ENV_VARS as nat, |i: int| None::<EnvVar>));
        s
    }

    /// Sets a variable: an existing one is overwritten, a new one takes the
    /// next free slot.
    pub fn set_var(&mut self, hash: u64, value: i64) -> (r: Result<(), &'static str>)
        requires
            old(self).wf(),
        ensures
            final(self).wf(),
            has_var(old(self).vars(), hash) ==> r == Ok::<(), &'static str>(()) && exists|i: int| first_var(old(self).vars(), hash, i)
                && final(self).vars() == old(self).vars().update(i, Some(EnvVar { hash, value })),
            !has_var(old(self).vars(), hash) ==> if forall|j: int| 0 <= j < MAX_ENV_VARS ==> (#[trigger] old(self).vars()[j]) is Some {
                r == Err::<(), &'static str>("Variable environment full") && final(self).vars() == old(self).vars()
            } else {
                r == Ok::<(), &'static str>(()) && exists|i: int| 0 <= i < MAX_ENV_VARS && old(self).vars()[i] is None
                    && (forall|j: int| 0 <= j < i ==> (#[trigger] old(self).vars()[j]) is Some)
                    && final(self).vars() == old(self).vars().update(i, Some(EnvVar { hash, value }))
            },
    {
        let mut i: usize = 0;
        while i < MAX_ENV_VARS
            invariant
                i <= MAX_ENV_VARS,
                *self == *old(self),
                self.wf(),
                forall|j: int| 0 <= j < i ==> !var_is(#[trigger] self.env_vars@[j], hash),
            decreases MAX_ENV_VARS - i,
        {
            if let Some(v) = self.env_vars[i] {
                if v.hash == hash {
                    assert(first_var(old(self).vars(), hash, i as int));
                    self.env_vars[i] = Some(EnvVar { hash, value });
                    return Ok(());
                }
            }
            i += 1;
        }
        match find_free(&self.env_vars) {
            Some(k) => {
                assert(k == self.var_count) by {
                    if k < self.var_count {
                        assert(self.env_vars@[k as int] is Some);
                    } else if k > self.var_count {
                        assert(self.env_vars@[self.var_count as int] is None);
                    }
                }
                self.env_vars[k] = Some(EnvVar { hash, value });
                self.var_count = self.var_count + 1;
                Ok(())
            },
            None => Err("Variable environment full"),
        }
    }

    pub fn get_var(&self, hash: u64) -> (r: Option<i64>)
        ensures
            match r {
                Some(v) => exists|i: int| first_var(self.vars(), hash, i) && self.vars()[i]->Some_0.value == v,
                None => !has_var(self.vars(), hash),
            },
    {
        let mut i: usize = 0;
        while i < MAX_ENV_VARS
            invariant
                i <= MAX_ENV_VARS,
                self.env_vars@.len() == MAX_ENV_VARS,
                forall|j: int| 0 <= j < i ==> !var_is(#[trigger] self.env_vars@[j], hash),
            decreases MAX_ENV_VARS - i,
        {
            if let Some(v) = self.env_vars[i] {
                if v.hash == hash {
                    assert(first_var(self.vars(), hash, i as int));
                    return Some(v.value);
                }
            }
            i += 1;
        }
        None
    }

    /// Applies `+`, `-`, `*` or `/` (truncating); division by zero and
    /// other operators are refused. The result must fit in 64 bits.
    pub fn evaluate_expression(&self, left: i64, op: u8, right: i64) -> (r: Result<i64, &'static str>)
        requires
            op == 43 ==> i64::MIN <= left + right <= i64::MAX,
            op == 45 ==> i64::MIN <= left - right <= i64::MAX,
            op == 42 ==> i64::MIN <= left * right <= i64::MAX,
            op == 47 ==> !(left == i64::MIN && right == -1),
        ensures
            op == 43 ==> r == Ok::<i64, &'static str>((left + right) as i64),
            op == 45 ==> r == Ok::<i64, &'static str>((left - right) as i64),
            op == 42 ==> r == Ok::<i64, &'static str>((left * right) as i64),
            op == 47 && right == 0 ==> r == Err::<i64, &'static str>("Division by zero in script evaluation"),
            op == 47 && right != 0 ==> r is Ok && r->Ok_0 == trunc_div(left as int, right as int),
            op != 43 && op != 45 && op != 42 && op != 47 ==> r == Err::<i64, &'static str>("Unsupported operator"),
    {
        if op == 43u8 {
            Ok(left + right)
        } else if op == 45u8 {
            Ok(left - right)
        } else if op == 42u8 {
            Ok(left * right)
        } else if op == 47u8 {
            if right == 0 {
                Err("Division by zero in script evaluation")
            } else {
                proof {
                    lemma_quotient_shrinks(abs_int(left as int), abs_int(right as int));
                }
                match left.checked_div(right) {
                    Some(q) => Ok(q),
                    None => Err("Division by zero in script evaluation"),
                }
            }
        } else {
            Err("Unsupported operator")
        }
    }
}

} // verus!
