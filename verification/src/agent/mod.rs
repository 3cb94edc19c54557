//! The language-model agent: what is sent to the remote model for a
//! question and the passages retrieved for it.

use crate::storage::file_contents::{texts_of, ContentRow, FileContentRecords};
use vstd::prelude::*;

verus! {

/// The model that answers.
pub const MODEL: &'static str = "deepseek-r1";

/// The instructions for answering from retrieved passages; the passages
/// follow them.
pub const PREAMBLE: &'static str = "你是一个基于检索增强生成（RAG）的知识问答助手。你的任务是根据用户提供的查询和相关文档片段，生成准确、简洁且符合上下文的回答。

### 输入格式：
1. **用户查询**：用户提出的问题或需要解答的内容。
2. **相关文档片段**：从知识库中检索到的与查询相关的文本片段。

### 输出格式：
1. **回答**：基于检索到的文档片段，生成一个准确且完整的回答。
2. **引用来源**（可选）：如果适用，标明回答所依据的文档片段来源。
3. **格式**：使用Markdown格式回答。

### 注意事项：
1. **准确性**：确保回答与检索到的文档片段一致，避免编造信息。
2. **简洁性**：回答应简明扼要，避免冗长或不相关的信息。
3. **上下文一致性**：确保回答与用户查询的上下文相符。
4. **引用来源**：如果用户要求或需要明确来源，请在回答中引用相关文档片段。

### 本地知识

";

/// The instructions for answering without retrieved passages.
pub const PREAMBLE_REMOTE: &'static str = "你是一个基于本地知识和通用知识的 AI 助手，能够帮助用户解答问题。

1. **如果未检索到本地知识**：
   - 礼貌地告知用户未找到相关本地内容。
   - 继续基于通用知识回答用户的问题。
   - 确保回答仍然有帮助且相关。

**示例交互**：

- 用户：法国的首都是哪里？
- AI：法国的首都是巴黎。

- 用户：我们内部项目 X 的关键特性是什么？
- AI：未找到关于项目 X 的本地内容。不过，根据通用知识，项目 X 通常涉及以下特性：……";

/// The texts, one after the other, with the separator between each two.
pub open spec fn joined(texts: Seq<Seq<char>>, separator: Seq<char>) -> Seq<char>
    decreases texts.len(),
{
    if texts.len() == 0 {
        Seq::empty()
    } else if texts.len() == 1 {
        texts[0]
    } else {
        joined(texts.drop_last(), separator) + separator + texts.last()
    }
}

/// `Itertools::join` of itertools on the texts: they follow each other in
/// their order, with the separator between each two and none at the ends.
#[verifier::external_body]
fn join(texts: &Vec<String>, separator: &str) -> (text: String)
    ensures
        text@ == joined(texts_of(texts@), separator@),
{
    itertools::Itertools::join(&mut texts.iter(), separator)
}

/// One call of the remote model.
#[derive(Debug)]
pub struct LlmRequest {
    pub base_url: String,
    pub api_key: String,
    pub model: String,
    /// The instructions given to the model before the prompt.
    pub preamble: String,
    pub prompt: String,
}

/// The texts of the rows, in their order.
pub open spec fn row_texts(rows: Seq<ContentRow>) -> Seq<Seq<char>> {
    rows.map_values(|r: ContentRow| r.text)
}

/// The instructions for a question that is answered from the given rows:
/// the fixed instructions, then the texts of the rows, one on each line.
pub open spec fn grounded_preamble(rows: Seq<ContentRow>) -> Seq<char> {
    PREAMBLE@ + joined(row_texts(rows), "\n"@)
}

/// An agent for one endpoint.
#[derive(Debug)]
pub struct OpenAiAgent {
    pub base_url: String,
    pub api_key: String,
}

impl OpenAiAgent {
    /// The agent for the endpoint at the address, with its credential.
    pub fn new(base_url: &str, api_key: &str) -> (agent: Self)
        ensures
            agent.base_url@ == base_url@,
            agent.api_key@ == api_key@,
    {
        OpenAiAgent { base_url: String::from_str(base_url), api_key: String::from_str(api_key) }
    }

    /// The call that answers a question from retrieved passages: the
    /// question is the prompt, and the instructions carry the passages.
    pub fn query(&self, question: &str, context: &FileContentRecords) -> (request: LlmRequest)
        ensures
            request.base_url@ == self.base_url@,
            request.api_key@ == self.api_key@,
            request.model@ == MODEL@,
            request.preamble@ == grounded_preamble(context@),
            request.prompt@ == question@,
    {
        let mut texts: Vec<String> = Vec::new();
        let mut i: usize = 0;
        while i < context.0.len()
            invariant
                i <= context.0.len(),
                texts_of(texts@) == row_texts(context@).take(i as int),
            decreases context.0.len() - i,
        {
            let ghost before = texts@;
            texts.push(context.0[i].text.clone());
            assert(texts_of(texts@) =~= texts_of(before).push(context@[i as int].text));
            i = i + 1;
            assert(texts_of(texts@) =~= row_texts(context@).take(i as int));
        }
        assert(row_texts(context@).take(i as int) =~= row_texts(context@));
        let mut preamble = String::from_str(PREAMBLE);
        let passages = join(&texts, "\n");
        preamble.append(passages.as_str());
        LlmRequest {
            base_url: self.base_url.clone(),
            api_key: self.api_key.clone(),
            model: String::from_str(MODEL),
            preamble,
            prompt: String::from_str(question),
        }
    }

    /// The call that answers a prompt without retrieved passages.
    pub fn query_by_prompt(&self, prompt: &str) -> (request: LlmRequest)
        ensures
            request.base_url@ == self.base_url@,
            request.api_key@ == self.api_key@,
            request.model@ == MODEL@,
            request.preamble@ == PREAMBLE_REMOTE@,
            request.prompt@ == prompt@,
    {
        LlmRequest {
            base_url: self.base_url.clone(),
            api_key: self.api_key.clone(),
            model: String::from_str(MODEL),
            preamble: String::from_str(PREAMBLE_REMOTE),
            prompt: String::from_str(prompt),
        }
    }
}

} // verus!
