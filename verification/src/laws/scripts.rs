//! The JavaScript that pages are given: what a logpoint reports and when, and
//! what describes a storage.

use vstd::prelude::*;

use crate::interop;
use crate::logpoint;
use crate::storage_visit;
use crate::text;
use crate::text::Chars;

verus! {

/// Whether a text holds another one.
pub open spec fn holds(whole: Chars, part: Chars) -> bool {
    exists|before: Chars, after: Chars| whole == #[trigger] (before + part + after)
}

/// Whether a text holds another one that stands at a position of it.
pub proof fn lemma_part(whole: Chars, at: int, part: Chars)
    requires
        0 <= at,
        at + part.len() <= whole.len(),
        whole.subrange(at, at + part.len()) =~= part,
    ensures
        holds(whole, part),
{
    let before = whole.take(at);
    let after = whole.skip(at + part.len());
    assert forall|i: int| 0 <= i < part.len() implies whole[at + i] == part[i] by {
        assert(whole.subrange(at, at + part.len())[i] == part[i]);
    }
    assert(whole =~= before + part + after);
}

proof fn lemma_between(whole: Chars, before: Chars, part: Chars, after: Chars)
    requires
        whole == before + part + after,
    ensures
        holds(whole, part),
{
}

proof fn lemma_longer(whole: Chars, more: Chars, part: Chars)
    requires
        holds(whole, part),
    ensures
        holds(whole + more, part),
{
    let (before, after) = choose|before: Chars, after: Chars| whole == #[trigger] (before + part
        + after);
    assert(whole + more =~= before + part + (after + more));
}

/// JavaScript that reports one expression: its text and its value, or its text
/// and what went wrong.
pub open spec fn reported(expression: Chars) -> Chars {
    "(()=>{try{return{expression:"@ + interop::json_quote(expression) + ",value:__abSer(("@
        + expression + "),0)}}catch(__abErr){return{expression:"@ + interop::json_quote(expression)
        + ",evaluationError:__abError(__abErr)}}})()"@
}

/// The members by which a report is recognized.
pub open spec fn recognized(nonce: Chars, probe: Chars, physical: Chars) -> Chars {
    interop::json_quote(nonce) + ",probeId:"@ + interop::json_quote(probe)
        + ",physicalBindingId:"@ + interop::json_quote(physical)
}

spec fn decided(
    nonce: Chars,
    probe: Chars,
    physical: Chars,
    when: Option<Chars>,
) -> Chars {
    logpoint::SERIALIZER@ + "let __abWhenError=null;let __abRun=false;try{__abRun="@ + logpoint::when_script(
        when,
    ) + "}catch(e){__abWhenError=__abError(e)};if(!__abRun&&__abWhenError===null)return false;"@
}

spec fn valued(
    nonce: Chars,
    probe: Chars,
    physical: Chars,
    when: Option<Chars>,
    expressions: Seq<Chars>,
) -> Chars {
    decided(nonce, probe, physical, when) + "const __abPayload={nonce:"@ + logpoint::identity_script(
        nonce,
        probe,
        physical,
    ) + ",values:__abRun?["@ + text::joined(
        expressions.map_values(|e: Chars| logpoint::value_script(e)),
        ","@,
    )
}

spec fn bounded(
    nonce: Chars,
    probe: Chars,
    physical: Chars,
    when: Option<Chars>,
    expressions: Seq<Chars>,
) -> Chars {
    valued(nonce, probe, physical, when, expressions) + "]:[]};if(__abWhenError!==null)__abPayload.whenError=__abWhenError;"@
        + "let __abRaw=JSON.stringify(__abPayload);if(__abUtf8Bytes(__abRaw)>65536)__abRaw=JSON.stringify({nonce:"@
        + logpoint::identity_script(nonce, probe, physical)
        + ",values:[],serializationError:'payload-too-large'});const __abBinding=globalThis["@
}

proof fn lemma_stages(
    binding: Chars,
    nonce: Chars,
    probe: Chars,
    physical: Chars,
    when: Option<Chars>,
    expressions: Seq<Chars>,
    part: Chars,
)
    ensures
        logpoint::logpoint_script(binding, nonce, probe, physical, when, expressions) == bounded(
            nonce,
            probe,
            physical,
            when,
            expressions,
        ) + interop::json_quote(binding)
            + "];if(typeof __abBinding==='function')__abBinding(__abRaw)}catch(_){ }return false})()"@,
        holds(decided(nonce, probe, physical, when), part) ==> holds(
            valued(nonce, probe, physical, when, expressions),
            part,
        ),
        holds(valued(nonce, probe, physical, when, expressions), part) ==> holds(
            bounded(nonce, probe, physical, when, expressions),
            part,
        ),
        holds(bounded(nonce, probe, physical, when, expressions), part) ==> holds(
            logpoint::logpoint_script(binding, nonce, probe, physical, when, expressions),
            part,
        ),
{
    let a = decided(nonce, probe, physical, when);
    let b = valued(nonce, probe, physical, when, expressions);
    let c = bounded(nonce, probe, physical, when, expressions);
    let identity = logpoint::identity_script(nonce, probe, physical);
    let values = text::joined(
        expressions.map_values(|e: Chars| logpoint::value_script(e)),
        ","@,
    );
    if holds(a, part) {
        lemma_longer(a, "const __abPayload={nonce:"@, part);
        lemma_longer(a + "const __abPayload={nonce:"@, identity, part);
        lemma_longer(a + "const __abPayload={nonce:"@ + identity, ",values:__abRun?["@, part);
        lemma_longer(a + "const __abPayload={nonce:"@ + identity + ",values:__abRun?["@, values, part);
    }
    let l = "]:[]};if(__abWhenError!==null)__abPayload.whenError=__abWhenError;"@;
    let m = "let __abRaw=JSON.stringify(__abPayload);if(__abUtf8Bytes(__abRaw)>65536)__abRaw=JSON.stringify({nonce:"@;
    let n = ",values:[],serializationError:'payload-too-large'});const __abBinding=globalThis["@;
    if holds(b, part) {
        lemma_longer(b, l, part);
        lemma_longer(b + l, m, part);
        lemma_longer(b + l + m, identity, part);
        lemma_longer(b + l + m + identity, n, part);
    }
    let q = interop::json_quote(binding);
    let end = "];if(typeof __abBinding==='function')__abBinding(__abRaw)}catch(_){ }return false})()"@;
    if holds(c, part) {
        lemma_longer(c, q, part);
        lemma_longer(c + q, end, part);
    }
}

/// A logpoint reports where its `when` expression is true, and always where it
/// has none. Where the expression is false it is silent; where the expression
/// throws, that is noted. In every case the condition is false, so that nothing
/// pauses.
pub proof fn law_logpoints_report_where_their_condition_holds(
    binding: Chars,
    nonce: Chars,
    probe: Chars,
    physical: Chars,
    when: Option<Chars>,
    expressions: Seq<Chars>,
)
    ensures
        ({
            let script = logpoint::logpoint_script(
                binding,
                nonce,
                probe,
                physical,
                when,
                expressions,
            );
            &&& match when {
                Some(e) => holds(script, "__abRun=Boolean(("@ + e + "))}catch(e)"@),
                None => holds(script, "__abRun=true}catch(e)"@),
            }
            &&& holds(script, "catch(e){__abWhenError=__abError(e)};"@)
            &&& holds(script, "if(!__abRun&&__abWhenError===null)return false;"@)
            &&& holds(script, "if(__abWhenError!==null)__abPayload.whenError=__abWhenError;"@)
            &&& "return false})()"@.is_suffix_of(script)
        }),
{
    let script = logpoint::logpoint_script(binding, nonce, probe, physical, when, expressions);
    let run = logpoint::when_script(when);
    let serializer = logpoint::SERIALIZER@;
    reveal_strlit("let __abWhenError=null;let __abRun=false;try{__abRun=");
    reveal_strlit("let __abWhenError=null;let __abRun=false;try{");
    reveal_strlit("__abRun=");
    assert("let __abWhenError=null;let __abRun=false;try{__abRun="@ =~= "let __abWhenError=null;let __abRun=false;try{"@ + "__abRun="@);
    reveal_strlit("}catch(e){__abWhenError=__abError(e)};if(!__abRun&&__abWhenError===null)return false;");
    reveal_strlit("}");
    reveal_strlit("catch(e){__abWhenError=__abError(e)};");
    reveal_strlit("if(!__abRun&&__abWhenError===null)return false;");
    assert("}catch(e){__abWhenError=__abError(e)};if(!__abRun&&__abWhenError===null)return false;"@ =~= "}"@ + "catch(e){__abWhenError=__abError(e)};"@ + "if(!__abRun&&__abWhenError===null)return false;"@);
    reveal_strlit("}catch(e)");
    reveal_strlit("{__abWhenError=__abError(e)};if(!__abRun&&__abWhenError===null)return false;");
    let tail = "{__abWhenError=__abError(e)};if(!__abRun&&__abWhenError===null)return false;"@;
    assert("}catch(e){__abWhenError=__abError(e)};if(!__abRun&&__abWhenError===null)return false;"@ =~= "}catch(e)"@ + tail);
    let a = decided(nonce, probe, physical, when);
    let head = serializer + "let __abWhenError=null;let __abRun=false;try{"@;
    match when {
        Some(e) => {
            reveal_strlit("__abRun=Boolean((");
            reveal_strlit("Boolean((");
            reveal_strlit("))}catch(e)");
            reveal_strlit("))");
            let part = "__abRun=Boolean(("@ + e + "))}catch(e)"@;
            assert("__abRun="@ + run + "}catch(e)"@ =~= part);
            assert(a =~= head + ("__abRun="@ + run + "}catch(e)"@) + tail);
            lemma_between(a, head, part, tail);
            lemma_stages(binding, nonce, probe, physical, when, expressions, part);
        },
        None => {
            reveal_strlit("__abRun=true}catch(e)");
            reveal_strlit("true");
            let part = "__abRun=true}catch(e)"@;
            assert("__abRun="@ + run + "}catch(e)"@ =~= part);
            assert(a =~= head + ("__abRun="@ + run + "}catch(e)"@) + tail);
            lemma_between(a, head, part, tail);
            lemma_stages(binding, nonce, probe, physical, when, expressions, part);
        },
    }
    let first = serializer + "let __abWhenError=null;let __abRun=false;try{__abRun="@ + run;
    let caught = "catch(e){__abWhenError=__abError(e)};"@;
    let silent = "if(!__abRun&&__abWhenError===null)return false;"@;
    assert(a =~= (first + "}"@) + caught + silent);
    lemma_between(a, first + "}"@, caught, silent);
    lemma_stages(binding, nonce, probe, physical, when, expressions, caught);
    assert(a =~= (first + "}"@ + caught) + silent + Seq::<char>::empty());
    lemma_between(a, first + "}"@ + caught, silent, Seq::empty());
    lemma_stages(binding, nonce, probe, physical, when, expressions, silent);
    let thrown = "if(__abWhenError!==null)__abPayload.whenError=__abWhenError;"@;
    reveal_strlit("]:[]};if(__abWhenError!==null)__abPayload.whenError=__abWhenError;");
    reveal_strlit("]:[]};");
    reveal_strlit("if(__abWhenError!==null)__abPayload.whenError=__abWhenError;");
    assert("]:[]};if(__abWhenError!==null)__abPayload.whenError=__abWhenError;"@ =~= "]:[]};"@ + "if(__abWhenError!==null)__abPayload.whenError=__abWhenError;"@);
    let b = valued(nonce, probe, physical, when, expressions);
    let more = "let __abRaw=JSON.stringify(__abPayload);if(__abUtf8Bytes(__abRaw)>65536)__abRaw=JSON.stringify({nonce:"@
        + logpoint::identity_script(nonce, probe, physical)
        + ",values:[],serializationError:'payload-too-large'});const __abBinding=globalThis["@;
    let c = bounded(nonce, probe, physical, when, expressions);
    assert(c =~= (b + "]:[]};"@) + thrown + more);
    lemma_between(c, b + "]:[]};"@, thrown, more);
    lemma_stages(binding, nonce, probe, physical, when, expressions, thrown);
    reveal_strlit("];if(typeof __abBinding==='function')__abBinding(__abRaw)}catch(_){ }return false})()");
    reveal_strlit("];if(typeof __abBinding==='function')__abBinding(__abRaw)}catch(_){ }");
    reveal_strlit("return false})()");
    assert("];if(typeof __abBinding==='function')__abBinding(__abRaw)}catch(_){ }return false})()"@ =~= "];if(typeof __abBinding==='function')__abBinding(__abRaw)}catch(_){ }"@ + "return false})()"@);
    let end = "return false})()"@;
    assert(script.subrange(script.len() - end.len(), script.len() as int) =~= end);
}

proof fn lemma_joined_pair(parts: Seq<Chars>, i: int)
    requires
        0 <= i < parts.len(),
    ensures
        holds(text::joined(parts, ","@), parts[i]),
        i + 1 < parts.len() ==> holds(text::joined(parts, ","@), parts[i] + ","@ + parts[i + 1]),
    decreases parts.len(),
{
    let rest = parts.drop_last();
    let whole = text::joined(parts, ","@);
    let last = parts.last();
    if parts.len() == 1 {
        assert(whole =~= Seq::<char>::empty() + parts[0] + Seq::<char>::empty());
        lemma_between(whole, Seq::empty(), parts[0], Seq::empty());
    } else {
        let front = text::joined(rest, ","@);
        if i == parts.len() - 1 {
            assert(whole =~= (front + ","@) + last + Seq::<char>::empty());
            lemma_between(whole, front + ","@, last, Seq::empty());
        } else {
            lemma_joined_pair(rest, i);
            lemma_longer(front, ","@, parts[i]);
            lemma_longer(front + ","@, last, parts[i]);
            if i + 1 < rest.len() {
                lemma_longer(front, ","@, parts[i] + ","@ + parts[i + 1]);
                lemma_longer(front + ","@, last, parts[i] + ","@ + parts[i + 1]);
            } else if parts.len() == 2 {
                assert(whole =~= Seq::<char>::empty() + (parts[0] + ","@ + parts[1])
                    + Seq::<char>::empty());
                lemma_between(whole, Seq::empty(), parts[0] + ","@ + parts[1], Seq::empty());
            } else {
                let early = text::joined(rest.drop_last(), ","@) + ","@;
                assert(front == early + parts[i]);
                assert(whole =~= early + (parts[i] + ","@ + last) + Seq::<char>::empty());
                lemma_between(whole, early, parts[i] + ","@ + last, Seq::empty());
            }
        }
    }
}

/// A logpoint reports every expression by itself, in the order that was asked
/// for: its own text, and the value that the text has when it is evaluated, or
/// what it threw.
pub proof fn law_logpoints_report_every_expression(
    binding: Chars,
    nonce: Chars,
    probe: Chars,
    physical: Chars,
    when: Option<Chars>,
    expressions: Seq<Chars>,
    i: int,
)
    requires
        0 <= i < expressions.len(),
    ensures
        ({
            let script = logpoint::logpoint_script(
                binding,
                nonce,
                probe,
                physical,
                when,
                expressions,
            );
            &&& holds(script, reported(expressions[i]))
            &&& i + 1 < expressions.len() ==> holds(
                script,
                reported(expressions[i]) + ","@ + reported(expressions[i + 1]),
            )
        }),
{
    let parts = expressions.map_values(|e: Chars| logpoint::value_script(e));
    assert(parts[i] == reported(expressions[i]));
    lemma_joined_pair(parts, i);
    let values = text::joined(parts, ","@);
    let b = valued(nonce, probe, physical, when, expressions);
    let front = decided(nonce, probe, physical, when) + "const __abPayload={nonce:"@
        + logpoint::identity_script(nonce, probe, physical) + ",values:__abRun?["@;
    lemma_behind(front, values, parts[i]);
    lemma_stages(binding, nonce, probe, physical, when, expressions, parts[i]);
    if i + 1 < expressions.len() {
        let pair = parts[i] + ","@ + parts[i + 1];
        lemma_behind(front, values, pair);
        lemma_stages(binding, nonce, probe, physical, when, expressions, pair);
    }
}

proof fn lemma_behind(front: Chars, whole: Chars, part: Chars)
    requires
        holds(whole, part),
    ensures
        holds(front + whole, part),
{
    let (before, after) = choose|before: Chars, after: Chars| whole == #[trigger] (before + part
        + after);
    assert(front + whole =~= (front + before) + part + after);
}

/// A report carries the secret of the connection and the identifiers of its
/// probe and installation, and goes through the binding of the connection. One
/// that is too long is replaced by a short one with the same identifiers.
pub proof fn law_reports_say_where_they_come_from(
    binding: Chars,
    nonce: Chars,
    probe: Chars,
    physical: Chars,
    when: Option<Chars>,
    expressions: Seq<Chars>,
)
    ensures
        ({
            let script = logpoint::logpoint_script(
                binding,
                nonce,
                probe,
                physical,
                when,
                expressions,
            );
            &&& holds(
                script,
                "const __abPayload={nonce:"@ + recognized(nonce, probe, physical)
                    + ",values:__abRun?["@,
            )
            &&& holds(
                script,
                "if(__abUtf8Bytes(__abRaw)>65536)__abRaw=JSON.stringify({nonce:"@ + recognized(
                    nonce,
                    probe,
                    physical,
                ) + ",values:[],serializationError:'payload-too-large'});"@,
            )
            &&& holds(
                script,
                "const __abBinding=globalThis["@ + interop::json_quote(binding)
                    + "];if(typeof __abBinding==='function')__abBinding(__abRaw)"@,
            )
        }),
{
    let script = logpoint::logpoint_script(binding, nonce, probe, physical, when, expressions);
    let identity = logpoint::identity_script(nonce, probe, physical);
    assert(identity == recognized(nonce, probe, physical));
    let a = decided(nonce, probe, physical, when);
    let b = valued(nonce, probe, physical, when, expressions);
    let c = bounded(nonce, probe, physical, when, expressions);
    let values = text::joined(
        expressions.map_values(|e: Chars| logpoint::value_script(e)),
        ","@,
    );
    let first = "const __abPayload={nonce:"@ + identity + ",values:__abRun?["@;
    assert(b =~= a + first + values);
    lemma_between(b, a, first, values);
    lemma_stages(binding, nonce, probe, physical, when, expressions, first);
    reveal_strlit("let __abRaw=JSON.stringify(__abPayload);if(__abUtf8Bytes(__abRaw)>65536)__abRaw=JSON.stringify({nonce:");
    reveal_strlit("let __abRaw=JSON.stringify(__abPayload);");
    reveal_strlit("if(__abUtf8Bytes(__abRaw)>65536)__abRaw=JSON.stringify({nonce:");
    assert("let __abRaw=JSON.stringify(__abPayload);if(__abUtf8Bytes(__abRaw)>65536)__abRaw=JSON.stringify({nonce:"@ =~= "let __abRaw=JSON.stringify(__abPayload);"@ + "if(__abUtf8Bytes(__abRaw)>65536)__abRaw=JSON.stringify({nonce:"@);
    reveal_strlit(",values:[],serializationError:'payload-too-large'});const __abBinding=globalThis[");
    reveal_strlit(",values:[],serializationError:'payload-too-large'});");
    reveal_strlit("const __abBinding=globalThis[");
    assert(",values:[],serializationError:'payload-too-large'});const __abBinding=globalThis["@ =~= ",values:[],serializationError:'payload-too-large'});"@ + "const __abBinding=globalThis["@);
    let second = "if(__abUtf8Bytes(__abRaw)>65536)__abRaw=JSON.stringify({nonce:"@ + identity
        + ",values:[],serializationError:'payload-too-large'});"@;
    let before = b + "]:[]};if(__abWhenError!==null)__abPayload.whenError=__abWhenError;"@
        + "let __abRaw=JSON.stringify(__abPayload);"@;
    let after = "const __abBinding=globalThis["@;
    assert(c =~= before + second + after);
    lemma_between(c, before, second, after);
    lemma_stages(binding, nonce, probe, physical, when, expressions, second);
    let q = interop::json_quote(binding);
    reveal_strlit("];if(typeof __abBinding==='function')__abBinding(__abRaw)}catch(_){ }return false})()");
    reveal_strlit("];if(typeof __abBinding==='function')__abBinding(__abRaw)");
    reveal_strlit("}catch(_){ }return false})()");
    assert("];if(typeof __abBinding==='function')__abBinding(__abRaw)}catch(_){ }return false})()"@ =~= "];if(typeof __abBinding==='function')__abBinding(__abRaw)"@ + "}catch(_){ }return false})()"@);
    let call = "];if(typeof __abBinding==='function')__abBinding(__abRaw)"@;
    let rest = "}catch(_){ }return false})()"@;
    let third = after + q + call;
    assert(script =~= (before + second) + third + rest);
    lemma_between(script, before + second, third, rest);
}

/// What a logpoint serializes is bounded: in depth, in the number of properties,
/// in the length of arrays and texts. Nothing is visited twice, accessors are
/// not read, and values that JSON lacks are described. Nothing that is thrown
/// leaves it.
pub proof fn law_serialized_values_are_bounded()
    ensures
        "(()=>{try{"@.is_prefix_of(logpoint::SERIALIZER@),
        holds(logpoint::SERIALIZER@, "let __abRemainingProperties=128;"@),
        holds(logpoint::SERIALIZER@, "typeof v==='string')return v.length>4096?{type:'string',value:v.slice(0,4096),truncated:true}:v;"@),
        holds(logpoint::SERIALIZER@, "if(__abSeen.has(v))return{type:'circular'};"@),
        holds(logpoint::SERIALIZER@, "if(d>=4)return{type:'truncated',reason:'max-depth'};"@),
        holds(logpoint::SERIALIZER@, "length=Math.min(Number(v.length)||0,64)"@),
        holds(logpoint::SERIALIZER@, "keys=Reflect.ownKeys(v).slice(0,32)"@),
        holds(logpoint::SERIALIZER@, "typeof v==='number')return Number.isFinite(v)?v:{type:'number',value:String(v)};"@),
        holds(logpoint::SERIALIZER@, "typeof v==='bigint')return{type:'bigint',value:String(v)};"@),
        holds(logpoint::SERIALIZER@, "Object.prototype.hasOwnProperty.call(descriptor,'value'))o[name]=__abSer(descriptor.value,d+1);else if(descriptor)o[name]={type:'accessor',read:false};"@),
        holds(logpoint::SERIALIZER@, "Object.prototype.hasOwnProperty.call(descriptor,'value'))a.push(__abSer(descriptor.value,d+1));else if(descriptor)a.push({type:'accessor',read:false});"@),
{
    reveal_strlit("(()=>{try{");
    reveal_strlit(r#"(()=>{try{
let __abRemainingProperties=128;
const __abSeen=new WeakSet();
const __abError=(e)=>{try{return String(e&&e.message||e).slice(0,4096)}catch(_){return 'unprintable error'}};
const __abSer=(v,d)=>{try{
if(v===null||v===undefined||typeof v==='boolean')return v;
if(typeof v==='string')return v.length>4096?{type:'string',value:v.slice(0,4096),truncated:true}:v;
if(typeof v==='number')return Number.isFinite(v)?v:{type:'number',value:String(v)};
if(typeof v==='bigint')return{type:'bigint',value:String(v)};
if(typeof v==='symbol')return{type:'symbol',value:__abError(v)};
if(typeof v==='function')return{type:'function',name:(()=>{try{return String(v.name||'').slice(0,256)}catch(_){return''}})()};
if(typeof v!=='object')return{type:typeof v,value:__abError(v)};
if(__abSeen.has(v))return{type:'circular'};
if(d>=4)return{type:'truncated',reason:'max-depth'};
__abSeen.add(v);
if(Array.isArray(v)){
const a=[];let length=0;try{length=Math.min(Number(v.length)||0,64)}catch(e){return{type:'proxy-error',serializationError:__abError(e)}}
for(let i=0;i<length&&__abRemainingProperties>0;i++){__abRemainingProperties--;try{const descriptor=Object.getOwnPropertyDescriptor(v,String(i));if(descriptor&&Object.prototype.hasOwnProperty.call(descriptor,'value'))a.push(__abSer(descriptor.value,d+1));else if(descriptor)a.push({type:'accessor',read:false});else a.push({type:'missing'})}catch(e){a.push({type:'access-error',serializationError:__abError(e)})}}
if(length>=64)a.push({type:'truncated',reason:'max-array-length'});
if(__abRemainingProperties<=0)a.push({type:'truncated',reason:'max-properties'});
return a
}
const o={};let keys;try{keys=Reflect.ownKeys(v).slice(0,32)}catch(e){return{type:'proxy-error',serializationError:__abError(e)}}
for(const key of keys){if(__abRemainingProperties<=0){o.__truncated__={type:'truncated',reason:'max-properties'};break}__abRemainingProperties--;let name;try{name=String(key).slice(0,256)}catch(_){name='[unprintable-key]'}try{const descriptor=Object.getOwnPropertyDescriptor(v,key);if(descriptor&&Object.prototype.hasOwnProperty.call(descriptor,'value'))o[name]=__abSer(descriptor.value,d+1);else if(descriptor)o[name]={type:'accessor',read:false};else o[name]={type:'missing'}}catch(e){o[name]={type:'access-error',serializationError:__abError(e)}}}
return o
}catch(e){return{type:'serialization-error',serializationError:__abError(e)}}};
const __abUtf8Bytes=(s)=>{let bytes=0;for(let i=0;i<s.length;i++){const code=s.charCodeAt(i);if(code<128)bytes++;else if(code<2048)bytes+=2;else if(code>=55296&&code<=56319&&i+1<s.length){const next=s.charCodeAt(i+1);if(next>=56320&&next<=57343){bytes+=4;i++}else bytes+=3}else bytes+=3}return bytes};
"#);
    reveal_strlit("let __abRemainingProperties=128;");
    lemma_part(logpoint::SERIALIZER@, 11, "let __abRemainingProperties=128;"@);
    reveal_strlit("typeof v==='string')return v.length>4096?{type:'string',value:v.slice(0,4096),truncated:true}:v;");
    lemma_part(logpoint::SERIALIZER@, 273, "typeof v==='string')return v.length>4096?{type:'string',value:v.slice(0,4096),truncated:true}:v;"@);
    reveal_strlit("if(__abSeen.has(v))return{type:'circular'};");
    lemma_part(logpoint::SERIALIZER@, 773, "if(__abSeen.has(v))return{type:'circular'};"@);
    reveal_strlit("if(d>=4)return{type:'truncated',reason:'max-depth'};");
    lemma_part(logpoint::SERIALIZER@, 817, "if(d>=4)return{type:'truncated',reason:'max-depth'};"@);
    reveal_strlit("length=Math.min(Number(v.length)||0,64)");
    lemma_part(logpoint::SERIALIZER@, 937, "length=Math.min(Number(v.length)||0,64)"@);
    reveal_strlit("keys=Reflect.ownKeys(v).slice(0,32)");
    lemma_part(logpoint::SERIALIZER@, 1645, "keys=Reflect.ownKeys(v).slice(0,32)"@);
    reveal_strlit("typeof v==='number')return Number.isFinite(v)?v:{type:'number',value:String(v)};");
    lemma_part(logpoint::SERIALIZER@, 373, "typeof v==='number')return Number.isFinite(v)?v:{type:'number',value:String(v)};"@);
    reveal_strlit("typeof v==='bigint')return{type:'bigint',value:String(v)};");
    lemma_part(logpoint::SERIALIZER@, 457, "typeof v==='bigint')return{type:'bigint',value:String(v)};"@);
    reveal_strlit("Object.prototype.hasOwnProperty.call(descriptor,'value'))o[name]=__abSer(descriptor.value,d+1);else if(descriptor)o[name]={type:'accessor',read:false};");
    lemma_part(logpoint::SERIALIZER@, 2047, "Object.prototype.hasOwnProperty.call(descriptor,'value'))o[name]=__abSer(descriptor.value,d+1);else if(descriptor)o[name]={type:'accessor',read:false};"@);
    reveal_strlit("Object.prototype.hasOwnProperty.call(descriptor,'value'))a.push(__abSer(descriptor.value,d+1));else if(descriptor)a.push({type:'accessor',read:false});");
    lemma_part(logpoint::SERIALIZER@, 1206, "Object.prototype.hasOwnProperty.call(descriptor,'value'))a.push(__abSer(descriptor.value,d+1));else if(descriptor)a.push({type:'accessor',read:false});"@);
    assert(logpoint::SERIALIZER@.subrange(0, 10) =~= "(()=>{try{"@);
}

/// What describes a storage lists every entry of the local and of the session
/// storage, each in the list of its own with its own value, and the origin that
/// they belong to.
pub proof fn law_storages_are_described_in_full()
    ensures
        holds(storage_visit::STORAGE_SCRIPT@, "origin: location.origin"@),
        holds(storage_visit::STORAGE_SCRIPT@, "for (let i = 0; i < localStorage.length; i++) {"@),
        holds(storage_visit::STORAGE_SCRIPT@, "const key = localStorage.key(i);"@),
        holds(storage_visit::STORAGE_SCRIPT@, "result.localStorage.push({ name: key, value: localStorage.getItem(key) });"@),
        holds(storage_visit::STORAGE_SCRIPT@, "for (let i = 0; i < sessionStorage.length; i++) {"@),
        holds(storage_visit::STORAGE_SCRIPT@, "const key = sessionStorage.key(i);"@),
        holds(storage_visit::STORAGE_SCRIPT@, "result.sessionStorage.push({ name: key, value: sessionStorage.getItem(key) });"@),
        holds(storage_visit::STORAGE_SCRIPT@, "return result;"@),
{
    reveal_strlit(r#"(() => {
        const result = { origin: location.origin, localStorage: [], sessionStorage: [] };
        try {
            for (let i = 0; i < localStorage.length; i++) {
                const key = localStorage.key(i);
                result.localStorage.push({ name: key, value: localStorage.getItem(key) });
            }
        } catch(e) {}
        try {
            for (let i = 0; i < sessionStorage.length; i++) {
                const key = sessionStorage.key(i);
                result.sessionStorage.push({ name: key, value: sessionStorage.getItem(key) });
            }
        } catch(e) {}
        return result;
    })()"#);
    reveal_strlit("origin: location.origin");
    lemma_part(storage_visit::STORAGE_SCRIPT@, 34, "origin: location.origin"@);
    reveal_strlit("for (let i = 0; i < localStorage.length; i++) {");
    lemma_part(storage_visit::STORAGE_SCRIPT@, 125, "for (let i = 0; i < localStorage.length; i++) {"@);
    reveal_strlit("const key = localStorage.key(i);");
    lemma_part(storage_visit::STORAGE_SCRIPT@, 189, "const key = localStorage.key(i);"@);
    reveal_strlit("result.localStorage.push({ name: key, value: localStorage.getItem(key) });");
    lemma_part(storage_visit::STORAGE_SCRIPT@, 238, "result.localStorage.push({ name: key, value: localStorage.getItem(key) });"@);
    reveal_strlit("for (let i = 0; i < sessionStorage.length; i++) {");
    lemma_part(storage_visit::STORAGE_SCRIPT@, 375, "for (let i = 0; i < sessionStorage.length; i++) {"@);
    reveal_strlit("const key = sessionStorage.key(i);");
    lemma_part(storage_visit::STORAGE_SCRIPT@, 441, "const key = sessionStorage.key(i);"@);
    reveal_strlit("result.sessionStorage.push({ name: key, value: sessionStorage.getItem(key) });");
    lemma_part(storage_visit::STORAGE_SCRIPT@, 492, "result.sessionStorage.push({ name: key, value: sessionStorage.getItem(key) });"@);
    reveal_strlit("return result;");
    lemma_part(storage_visit::STORAGE_SCRIPT@, 615, "return result;"@);
}

} // verus!
