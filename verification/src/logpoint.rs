//! The JavaScript of a logpoint: a breakpoint condition that reports values
//! through a binding and never pauses.

use vstd::prelude::*;

use crate::interop;
use crate::interop::quote;
use crate::text;
use crate::text::{join, Chars};

verus! {

/// Serializer that bounds depth, length and number of properties, reads no
/// accessors and never throws.
pub const SERIALIZER: &'static str = r#"(()=>{try{
let __abRemainingProperties=128;
const __abSeen=new WeakSet();
const __abError=(e)=>{try{return String(e&&e.message||e).slice(0,4096)}catch(_){return 'unprintable error'}};
const __abSer=(v,d)=>{try{
if(v===null||v===undefined||typeof v==='boolean')return v;
if(typeof v==='string')return v.length>4096?{type:'string',value:v.slice(0,4096),truncated:true}:v;
if(typeof v==='number')return Number.isFinite(v)?v:{type:'number',value:String(v)};
if(typeof v==='bigint')return{type:'bigint',value:String(v)};
if(typeof v==='symbol')return{type:'symbol',value:__abError(v)};
if(typeof v==='function')return{type:'function',name:(()=>{try{return String(v.name||'').slice(0,256)}catch(_){return''}})()};
if(typeof v!=='object')return{type:typeof v,value:__abError(v)};
if(__abSeen.has(v))return{type:'circular'};
if(d>=4)return{type:'truncated',reason:'max-depth'};
__abSeen.add(v);
if(Array.isArray(v)){
const a=[];let length=0;try{length=Math.min(Number(v.length)||0,64)}catch(e){return{type:'proxy-error',serializationError:__abError(e)}}
for(let i=0;i<length&&__abRemainingProperties>0;i++){__abRemainingProperties--;try{const descriptor=Object.getOwnPropertyDescriptor(v,String(i));if(descriptor&&Object.prototype.hasOwnProperty.call(descriptor,'value'))a.push(__abSer(descriptor.value,d+1));else if(descriptor)a.push({type:'accessor',read:false});else a.push({type:'missing'})}catch(e){a.push({type:'access-error',serializationError:__abError(e)})}}
if(length>=64)a.push({type:'truncated',reason:'max-array-length'});
if(__abRemainingProperties<=0)a.push({type:'truncated',reason:'max-properties'});
return a
}
const o={};let keys;try{keys=Reflect.ownKeys(v).slice(0,32)}catch(e){return{type:'proxy-error',serializationError:__abError(e)}}
for(const key of keys){if(__abRemainingProperties<=0){o.__truncated__={type:'truncated',reason:'max-properties'};break}__abRemainingProperties--;let name;try{name=String(key).slice(0,256)}catch(_){name='[unprintable-key]'}try{const descriptor=Object.getOwnPropertyDescriptor(v,key);if(descriptor&&Object.prototype.hasOwnProperty.call(descriptor,'value'))o[name]=__abSer(descriptor.value,d+1);else if(descriptor)o[name]={type:'accessor',read:false};else o[name]={type:'missing'}}catch(e){o[name]={type:'access-error',serializationError:__abError(e)}}}
return o
}catch(e){return{type:'serialization-error',serializationError:__abError(e)}}};
const __abUtf8Bytes=(s)=>{let bytes=0;for(let i=0;i<s.length;i++){const code=s.charCodeAt(i);if(code<128)bytes++;else if(code<2048)bytes+=2;else if(code>=55296&&code<=56319&&i+1<s.length){const next=s.charCodeAt(i+1);if(next>=56320&&next<=57343){bytes+=4;i++}else bytes+=3}else bytes+=3}return bytes};
"#;

/// JavaScript that evaluates one expression and reports its value or error.
pub open spec fn value_script(expression: Chars) -> Chars {
    "(()=>{try{return{expression:"@ + interop::json_quote(expression) + ",value:__abSer(("@
        + expression + "),0)}}catch(__abErr){return{expression:"@ + interop::json_quote(expression)
        + ",evaluationError:__abError(__abErr)}}})()"@
}

/// JavaScript that says whether the logpoint reports.
pub open spec fn when_script(when: Option<Chars>) -> Chars {
    match when {
        Some(expression) => "Boolean(("@ + expression + "))"@,
        None => "true"@,
    }
}

/// The members by which a payload is recognized.
pub open spec fn identity_script(nonce: Chars, probe: Chars, physical: Chars) -> Chars {
    interop::json_quote(nonce) + ",probeId:"@ + interop::json_quote(probe) + ",physicalBindingId:"@
        + interop::json_quote(physical)
}

/// The condition of a logpoint.
pub open spec fn logpoint_script(
    binding: Chars,
    nonce: Chars,
    probe: Chars,
    physical: Chars,
    when: Option<Chars>,
    expressions: Seq<Chars>,
) -> Chars {
    let identity = identity_script(nonce, probe, physical);
    SERIALIZER@ + "let __abWhenError=null;let __abRun=false;try{__abRun="@ + when_script(when)
        + "}catch(e){__abWhenError=__abError(e)};if(!__abRun&&__abWhenError===null)return false;"@
        + "const __abPayload={nonce:"@ + identity + ",values:__abRun?["@ + text::joined(
        expressions.map_values(|e: Chars| value_script(e)),
        ","@,
    ) + "]:[]};if(__abWhenError!==null)__abPayload.whenError=__abWhenError;"@
        + "let __abRaw=JSON.stringify(__abPayload);if(__abUtf8Bytes(__abRaw)>65536)__abRaw=JSON.stringify({nonce:"@
        + identity
        + ",values:[],serializationError:'payload-too-large'});const __abBinding=globalThis["@
        + interop::json_quote(binding)
        + "];if(typeof __abBinding==='function')__abBinding(__abRaw)}catch(_){ }return false})()"@
}

fn write_value(expression: &str) -> (r: String)
    ensures
        r@ == value_script(expression@),
{
    let label = quote(expression);
    "(()=>{try{return{expression:".to_owned().concat(label.as_str()).concat(
        ",value:__abSer((",
    ).concat(expression).concat("),0)}}catch(__abErr){return{expression:").concat(
        label.as_str(),
    ).concat(",evaluationError:__abError(__abErr)}}})()")
}

/// Writes the condition of a logpoint: it reports the values of the
/// expressions where `when` holds, and is itself always false.
pub fn build_logpoint_condition(
    binding_name: &str,
    nonce: &str,
    probe_id: &str,
    physical_id: &str,
    when: Option<&str>,
    expressions: &Vec<String>,
) -> (r: String)
    ensures
        r@ == logpoint_script(
            binding_name@,
            nonce@,
            probe_id@,
            physical_id@,
            when.deep_view(),
            expressions.deep_view(),
        ),
{
    let mut values: Vec<String> = Vec::new();
    let mut i: usize = 0;
    while i < expressions.len()
        invariant
            i == values.len() <= expressions.len(),
            forall|j: int|
                0 <= j < i ==> (#[trigger] values@[j])@ == value_script(expressions@[j]@),
        decreases expressions.len() - i,
    {
        values.push(write_value(expressions[i].as_str()));
        i = i + 1;
    }
    assert(values.deep_view() =~= expressions.deep_view().map_values(
        |e: Chars| value_script(e),
    ));
    let when_expression = match when {
        Some(expression) => "Boolean((".to_owned().concat(expression).concat("))"),
        None => "true".to_owned(),
    };
    let identity = quote(nonce).concat(",probeId:").concat(quote(probe_id).as_str()).concat(
        ",physicalBindingId:",
    ).concat(quote(physical_id).as_str());
    SERIALIZER.to_owned().concat("let __abWhenError=null;let __abRun=false;try{__abRun=").concat(
        when_expression.as_str(),
    ).concat(
        "}catch(e){__abWhenError=__abError(e)};if(!__abRun&&__abWhenError===null)return false;",
    ).concat("const __abPayload={nonce:").concat(identity.as_str()).concat(
        ",values:__abRun?[",
    ).concat(join(&values, ",").as_str()).concat(
        "]:[]};if(__abWhenError!==null)__abPayload.whenError=__abWhenError;",
    ).concat(
        "let __abRaw=JSON.stringify(__abPayload);if(__abUtf8Bytes(__abRaw)>65536)__abRaw=JSON.stringify({nonce:",
    ).concat(identity.as_str()).concat(
        ",values:[],serializationError:'payload-too-large'});const __abBinding=globalThis[",
    ).concat(quote(binding_name).as_str()).concat(
        "];if(typeof __abBinding==='function')__abBinding(__abRaw)}catch(_){ }return false})()",
    )
}

} // verus!
